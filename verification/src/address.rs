//! Address resolution: turning user-typed or link-derived text into a
//! fully qualified address, given an optional current address for
//! relative resolution.

use vstd::prelude::*;

verus! {

/// Characters allowed in the scheme part of a qualified address.
pub open spec fn is_scheme_char(c: char) -> bool {
    ('a' <= c && c <= 'z') || ('A' <= c && c <= 'Z') || ('0' <= c && c <= '9') || c == '+' || c
        == '-' || c == '.'
}

/// The text is a qualified address whose scheme ends just before
/// position `i`: a nonempty run of scheme characters followed by "://".
pub open spec fn is_qualified_at(s: Seq<char>, i: int) -> bool {
    &&& 1 <= i
    &&& i + 3 <= s.len()
    &&& (forall|j: int| 0 <= j < i ==> is_scheme_char(#[trigger] s[j]))
    &&& s[i] == ':'
    &&& s[i + 1] == '/'
    &&& s[i + 2] == '/'
}

/// The text parses as a fully scheme-qualified address.
pub open spec fn is_qualified(s: Seq<char>) -> bool {
    exists|i: int| is_qualified_at(s, i)
}

/// The scheme separator position of a qualified text is unique, because
/// a ':' is not a scheme character.
pub proof fn lemma_qualified_at_unique(s: Seq<char>, i: int, j: int)
    requires
        is_qualified_at(s, i),
        is_qualified_at(s, j),
    ensures
        i == j,
{
    if i < j {
        assert(is_scheme_char(s[i]));
        assert(false);
    }
    if j < i {
        assert(is_scheme_char(s[j]));
        assert(false);
    }
}

/// The position where the scheme of a qualified text ends.
pub open spec fn scheme_sep(s: Seq<char>) -> int {
    choose|i: int| is_qualified_at(s, i)
}

pub proof fn lemma_scheme_sep(s: Seq<char>, i: int)
    requires
        is_qualified_at(s, i),
    ensures
        is_qualified(s),
        scheme_sep(s) == i,
{
    lemma_qualified_at_unique(s, scheme_sep(s), i);
}

/// The position of the first '/' at or after `from`, or the length of
/// the text if there is none.
pub open spec fn slash_from(s: Seq<char>, from: int) -> int
    decreases s.len() - from, when 0 <= from
{
    if from >= s.len() {
        s.len() as int
    } else if s[from] == '/' {
        from
    } else {
        slash_from(s, from + 1)
    }
}

pub proof fn lemma_slash_from_props(s: Seq<char>, from: int)
    requires
        0 <= from <= s.len(),
    ensures
        from <= slash_from(s, from) <= s.len(),
        forall|k: int| from <= k < slash_from(s, from) ==> s[k] != '/',
        slash_from(s, from) < s.len() ==> s[slash_from(s, from)] == '/',
    decreases s.len() - from,
{
    if from < s.len() && s[from] != '/' {
        lemma_slash_from_props(s, from + 1);
    }
}

pub proof fn lemma_slash_from_is(s: Seq<char>, from: int, upto: int)
    requires
        0 <= from <= upto <= s.len(),
        forall|k: int| from <= k < upto ==> s[k] != '/',
        upto == s.len() || s[upto] == '/',
    ensures
        slash_from(s, from) == upto,
    decreases upto - from,
{
    if from < upto {
        lemma_slash_from_is(s, from + 1, upto);
    }
}

/// Where the path component of a qualified text begins: at the first
/// '/' after the "://", or at the end if there is none.
pub open spec fn path_start(s: Seq<char>) -> int {
    slash_from(s, scheme_sep(s) + 3)
}

/// The scheme and authority of a qualified text, up to the path.
pub open spec fn root_of(s: Seq<char>) -> Seq<char> {
    s.subrange(0, path_start(s))
}

/// The path component of a qualified text (empty if there is none).
pub open spec fn path_of(s: Seq<char>) -> Seq<char> {
    s.subrange(path_start(s), s.len() as int)
}

/// Mathematical model of an [`Address`]: the root (scheme and
/// authority) and the path, as character sequences.
pub ghost struct AddressView {
    pub root: Seq<char>,
    pub path: Seq<char>,
}

impl AddressView {
    /// The full address text.
    pub open spec fn text(self) -> Seq<char> {
        self.root + self.path
    }

    /// Well-formed: the root is qualified and contains no '/' after the
    /// "://", and the path is empty or begins with '/'. This guarantees
    /// that the full text parses back into the same root and path.
    pub open spec fn wf(self) -> bool {
        &&& is_qualified(self.root)
        &&& path_start(self.root) == self.root.len()
        &&& self.path.len() == 0 || self.path[0] == '/'
    }
}

/// A validated, scheme-qualified resource locator. Every value is
/// produced by successful resolution, never from unvalidated text.
#[derive(Debug)]
pub struct Address {
    root: String,
    path: String,
}

impl View for Address {
    type V = AddressView;

    closed spec fn view(&self) -> AddressView {
        AddressView { root: self.root@, path: self.path@ }
    }
}

/// A well-formed address's text parses back into its root and path.
pub proof fn lemma_wf_text_parses(a: AddressView)
    requires
        a.wf(),
    ensures
        is_qualified(a.text()),
        root_of(a.text()) == a.root,
        path_of(a.text()) == a.path,
{
    let t = a.text();
    let i = scheme_sep(a.root);
    assert(is_qualified_at(a.root, i));
    assert(is_qualified_at(t, i)) by {
        assert(forall|j: int| 0 <= j < i ==> #[trigger] t[j] == a.root[j]);
    }
    lemma_scheme_sep(t, i);
    lemma_slash_from_props(a.root, i + 3);
    assert forall|k: int| i + 3 <= k < a.root.len() implies t[k] != '/' by {
        assert(t[k] == a.root[k]);
    }
    if a.path.len() == 0 {
        lemma_slash_from_is(t, i + 3, a.root.len() as int);
    } else {
        assert(t[a.root.len() as int] == a.path[0]);
        lemma_slash_from_is(t, i + 3, a.root.len() as int);
    }
    assert(root_of(t) =~= a.root);
    assert(path_of(t) =~= a.path);
}

/// Error for text that cannot be resolved to an address: a relative
/// target without a context. Carries the offending text.
#[derive(Debug, PartialEq, Eq)]
pub struct ResolutionError {
    pub target: String,
}

/// What resolution returns: a qualified target is taken as it stands;
/// a relative target is resolved against the context, or refused when
/// there is none.
pub open spec fn resolve_spec(raw: Seq<char>, ctx: Option<AddressView>) -> Option<AddressView> {
    if is_qualified(raw) {
        Some(AddressView { root: root_of(raw), path: path_of(raw) })
    } else {
        match ctx {
            None => None,
            Some(c) => Some(AddressView { root: c.root, path: resolved_path(c.path, raw) }),
        }
    }
}

/// The path that a relative target resolves to against a context path:
/// an absolute target replaces the path; otherwise the target is
/// appended to the context's directory.
pub open spec fn resolved_path(ctx_path: Seq<char>, raw: Seq<char>) -> Seq<char> {
    if raw.len() > 0 && raw[0] == '/' {
        raw
    } else {
        joined(dir_of(ctx_path), raw)
    }
}

/// The directory a path's relative links resolve against: if the path
/// ends in the document suffix, its terminal segment is dropped;
/// otherwise the path itself.
pub open spec fn dir_of(p: Seq<char>) -> Seq<char> {
    if doc_suffix(p) && last_slash(p) >= 0 {
        p.subrange(0, last_slash(p))
    } else {
        p
    }
}

/// The path ends in the "document" file suffix ".gmi".
pub open spec fn doc_suffix(p: Seq<char>) -> bool {
    &&& p.len() >= 4
    &&& p[p.len() - 4] == '.'
    &&& p[p.len() - 3] == 'g'
    &&& p[p.len() - 2] == 'm'
    &&& p[p.len() - 1] == 'i'
}

/// The position of the last '/' in the path, or -1 if there is none.
pub open spec fn last_slash(p: Seq<char>) -> int
    decreases p.len(),
{
    if p.len() == 0 {
        -1
    } else if p[p.len() - 1] == '/' {
        p.len() - 1
    } else {
        last_slash(p.drop_last())
    }
}

/// A directory and a relative target joined with exactly one '/'.
pub open spec fn joined(dir: Seq<char>, rel: Seq<char>) -> Seq<char> {
    if dir.len() > 0 && dir[dir.len() - 1] == '/' {
        dir + rel
    } else {
        dir + seq!['/'] + rel
    }
}

fn scheme_char(c: char) -> (b: bool)
    ensures
        b == is_scheme_char(c),
{
    ('a' <= c && c <= 'z') || ('A' <= c && c <= 'Z') || ('0' <= c && c <= '9') || c == '+' || c
        == '-' || c == '.'
}

impl Address {
    /// Parses fully qualified address text; returns None exactly when
    /// the text is not scheme-qualified.
    pub fn parse_qualified(raw: &str) -> (r: Option<Address>)
        ensures
            match r {
                Some(a) => {
                    &&& is_qualified(raw@)
                    &&& a@.wf()
                    &&& a@.root == root_of(raw@)
                    &&& a@.path == path_of(raw@)
                    &&& a@.text() == raw@
                },
                None => !is_qualified(raw@),
            },
    {
        let len = raw.unicode_len();
        let mut i: usize = 0;
        while i < len && scheme_char(raw.get_char(i))
            invariant
                len == raw@.len(),
                0 <= i <= len,
                forall|j: int| 0 <= j < i ==> is_scheme_char(#[trigger] raw@[j]),
            decreases len - i,
        {
            i += 1;
        }
        if 1 <= i && len >= 3 && i < len - 2 && raw.get_char(i) == ':' && raw.get_char(i + 1)
            == '/' && raw.get_char(i + 2) == '/' {
            proof {
                assert(is_qualified_at(raw@, i as int));
                lemma_scheme_sep(raw@, i as int);
            }
            let mut j: usize = i + 3;
            while j < len && raw.get_char(j) != '/'
                invariant
                    len == raw@.len(),
                    i + 3 <= j <= len,
                    forall|k: int| i + 3 <= k < j ==> raw@[k] != '/',
                decreases len - j,
            {
                j += 1;
            }
            let root = raw.substring_char(0, j);
            let path = raw.substring_char(j, len);
            let a = Address { root: String::from_str(root), path: String::from_str(path) };
            proof {
                lemma_slash_from_is(raw@, i + 3, j as int);
                assert(path_start(raw@) == j);
                assert(a@.root =~= root_of(raw@));
                assert(a@.path =~= path_of(raw@));
                assert(a@.text() =~= raw@);
                // the root on its own is well formed
                assert(is_qualified_at(a@.root, i as int));
                lemma_scheme_sep(a@.root, i as int);
                lemma_slash_from_is(a@.root, i + 3, j as int);
            }
            Some(a)
        } else {
            proof {
                assert(!is_qualified(raw@)) by {
                    if is_qualified(raw@) {
                        let k = choose|k: int| is_qualified_at(raw@, k);
                        if k < i {
                            assert(is_scheme_char(raw@[k]));
                        } else if k > i && i < len {
                            assert(is_scheme_char(raw@[i as int]));
                        }
                    }
                }
            }
            None
        }
    }

    /// The full address text.
    pub fn to_text(&self) -> (r: String)
        ensures
            r@ == self@.text(),
    {
        self.root.clone().concat(self.path.as_str())
    }

    /// The scheme of the address, without the "://".
    pub fn scheme(&self) -> (r: String)
        requires
            self@.wf(),
        ensures
            r@ == self@.root.subrange(0, scheme_sep(self@.root)),
    {
        let root = self.root.as_str();
        let len = root.unicode_len();
        let ghost sep = scheme_sep(self@.root);
        proof {
            assert(is_qualified_at(self@.root, sep));
        }
        let mut i: usize = 0;
        while root.get_char(i) != ':'
            invariant
                len == root@.len(),
                0 <= i <= sep < len,
                is_qualified_at(root@, sep),
            decreases len - i,
        {
            proof {
                assert(is_scheme_char(root@[i as int]));
            }
            i += 1;
        }
        String::from_str(root.substring_char(0, i))
    }

    /// The directory that relative links resolve against.
    fn directory(&self) -> (r: String)
        requires
            self@.wf(),
        ensures
            r@ == dir_of(self@.path),
    {
        let p = self.path.as_str();
        let plen = p.unicode_len();
        if plen >= 4 && p.get_char(plen - 4) == '.' && p.get_char(plen - 3) == 'g' && p.get_char(
            plen - 2,
        ) == 'm' && p.get_char(plen - 1) == 'i' {
            let mut k: usize = plen;
            proof {
                assert(p@.subrange(0, plen as int) =~= p@);
            }
            while k > 0 && p.get_char(k - 1) != '/'
                invariant
                    plen == p@.len(),
                    0 <= k <= plen,
                    last_slash(p@) == last_slash(p@.subrange(0, k as int)),
                decreases k,
            {
                proof {
                    assert(p@.subrange(0, k as int).drop_last() =~= p@.subrange(0, k - 1 as int));
                }
                k -= 1;
            }
            if k == 0 {
                proof {
                    // the path is nonempty and begins with '/', so a last
                    // slash exists and the loop cannot reach the start
                    assert(p@.subrange(0, 0) =~= Seq::<char>::empty());
                    assert(last_slash(p@) == -1);
                    assert(p@[0] == '/');
                    assert(last_slash(p@) >= 0) by {
                        lemma_last_slash_lower(p@, 0);
                    }
                    assert(false);
                }
                String::new()
            } else {
                let d = p.substring_char(0, k - 1);
                proof {
                    assert(last_slash(p@) == k - 1);
                    assert(d@ =~= dir_of(self@.path));
                }
                String::from_str(d)
            }
        } else {
            String::from_str(p)
        }
    }
}

/// The last slash of a path lies inside it, or is -1 when absent.
pub proof fn lemma_last_slash_bounds(p: Seq<char>)
    ensures
        -1 <= last_slash(p) < p.len(),
        last_slash(p) >= 0 ==> p[last_slash(p)] == '/',
    decreases p.len(),
{
    if p.len() > 0 && p[p.len() - 1] != '/' {
        lemma_last_slash_bounds(p.drop_last());
    }
}

/// If some position holds a '/', the last slash is at or after it.
pub proof fn lemma_last_slash_lower(p: Seq<char>, at: int)
    requires
        0 <= at < p.len(),
        p[at] == '/',
    ensures
        last_slash(p) >= at,
    decreases p.len(),
{
    if p.len() - 1 > at && p[p.len() - 1] != '/' {
        lemma_last_slash_lower(p.drop_last(), at);
    }
}

/// Resolves raw target text to an address. Qualified text is used
/// directly regardless of context; relative text is resolved against
/// the context; relative text with no context is an error carrying the
/// offending text.
pub fn resolve(raw: &str, context: Option<&Address>) -> (r: Result<Address, ResolutionError>)
    requires
        match context {
            Some(c) => c@.wf(),
            None => true,
        },
    ensures
        ({
            let ctx = match context {
                Some(c) => Some(c@),
                None => None,
            };
            match resolve_spec(raw@, ctx) {
                Some(av) => match r {
                    Ok(a) => a@ == av && a@.wf(),
                    Err(_) => false,
                },
                None => match r {
                    Ok(_) => false,
                    Err(e) => e.target@ == raw@,
                },
            }
        }),
{
    match Address::parse_qualified(raw) {
        Some(a) => Ok(a),
        None => match context {
            None => Err(ResolutionError { target: String::from_str(raw) }),
            Some(c) => {
                let len = raw.unicode_len();
                let path = if len > 0 && raw.get_char(0) == '/' {
                    String::from_str(raw)
                } else {
                    let dir = c.directory();
                    let dlen = dir.as_str().unicode_len();
                    if dlen > 0 && dir.as_str().get_char(dlen - 1) == '/' {
                        dir.concat(raw)
                    } else {
                        proof {
                            reveal_strlit("/");
                            assert("/"@ =~= seq!['/']);
                        }
                        dir.concat("/").concat(raw)
                    }
                };
                let a = Address { root: c.root.clone(), path };
                proof {
                    let rp = resolved_path(c@.path, raw@);
                    assert(a@.path =~= rp);
                    // the resolved path is empty or begins with '/'
                    if !(raw@.len() > 0 && raw@[0] == '/') {
                        let d = dir_of(c@.path);
                        if d.len() > 0 {
                            if doc_suffix(c@.path) && last_slash(c@.path) >= 0 {
                                lemma_last_slash_bounds(c@.path);
                                assert(d[0] == c@.path[0]);
                            }
                            assert(d[0] == '/');
                            assert(rp[0] == '/');
                        } else {
                            assert(rp[0] == '/');
                        }
                    }
                    assert(a@.wf());
                }
                Ok(a)
            },
        },
    }
}

/// Qualified addresses are resolution-invariant: resolving one, with
/// any context, returns it unchanged.
pub proof fn lemma_qualified_resolution_invariant(raw: Seq<char>, ctx: Option<AddressView>)
    requires
        is_qualified(raw),
    ensures
        resolve_spec(raw, ctx) matches Some(a) && a.text() == raw,
{
    let i = scheme_sep(raw);
    assert(is_qualified_at(raw, i));
    lemma_slash_from_props(raw, i + 3);
    assert(root_of(raw) + path_of(raw) =~= raw);
}

/// A relative target resolved with no context fails.
pub proof fn lemma_relative_without_context_fails(raw: Seq<char>)
    requires
        !is_qualified(raw),
    ensures
        resolve_spec(raw, None) is None,
{
}

/// Resolving a relative (non-absolute) target keeps the context's root
/// and appends the target to the context's directory: when the context
/// path ends in the document suffix its terminal segment is dropped
/// first, and when it does not the whole path is kept.
pub proof fn lemma_relative_resolution(raw: Seq<char>, c: AddressView)
    requires
        !is_qualified(raw),
        !(raw.len() > 0 && raw[0] == '/'),
    ensures
        resolve_spec(raw, Some(c)) matches Some(a) && a.root == c.root && a.path == joined(
            dir_of(c.path),
            raw,
        ),
        doc_suffix(c.path) && last_slash(c.path) >= 0 ==> dir_of(c.path) == c.path.subrange(
            0,
            last_slash(c.path),
        ),
        !doc_suffix(c.path) ==> dir_of(c.path) == c.path,
{
}

} // verus!
