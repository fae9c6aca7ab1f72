//! Local file paths, joined the way the platform joins them.
use vstd::prelude::*;
use crate::text::chars_of;

verus! {

/// A name that `Path::join` appends as one relative component on every platform: not
/// empty, and without a separator (`/`, `\`) or a drive colon.
pub open spec fn plain_component(name: Seq<char>) -> bool {
    &&& name.len() > 0
    &&& !name.contains('/')
    &&& !name.contains('\\')
    &&& !name.contains(':')
}

/// Is `name` a plain component?
pub fn plain_name(name: &str) -> (r: bool)
    ensures
        r == plain_component(name@),
{
    let cs = chars_of(name);
    if cs.len() == 0 {
        return false;
    }
    let mut i: usize = 0;
    while i < cs.len()
        invariant
            cs@ == name@,
            i <= cs@.len(),
            forall|k: int| 0 <= k < i ==> cs@[k] != '/' && cs@[k] != '\\' && cs@[k] != ':',
        decreases cs@.len() - i,
    {
        let c = cs[i];
        if c == '/' || c == '\\' || c == ':' {
            assert(name@[i as int] == c);
            assert(name@.contains(c));
            return false;
        }
        i += 1;
    }
    true
}

/// Joining a plain component that does not start with `?` to a base that does not start
/// like a verbatim path gives a path that does not either.
pub proof fn lemma_joined_not_verbatim(base: Seq<char>, name: Seq<char>, r: Seq<char>)
    requires
        !verbatim_like(base),
        plain_component(name),
        name[0] != '?',
        joined(base, name, r),
    ensures
        !verbatim_like(r),
{
    assert(name.contains(name[0]));
    if r.len() >= 3 {
        if base.len() >= 3 {
            assert(r[0] == base[0] && r[1] == base[1] && r[2] == base[2]);
        } else if r == base + name {
            assert(r[2] == name[2 - base.len()]);
            if base.len() == 2 {
                assert(r[0] == base[0] && r[1] == base[1]);
            }
        } else {
            if base.len() == 2 {
                assert(r[2] == '/' || r[2] == '\\');
            } else if base.len() == 1 {
                assert(r[2] == name[0]);
                assert(name[0] != '/' && name[0] != '\\');
            } else {
                assert(r[0] == '/' || r[0] == '\\');
                assert(r[1] == name[0]);
            }
        }
    }
}

/// `r` is `name` joined to `base`: either appended directly (when `base` is empty or
/// already ends with a separator) or after one separator, `/` or `\` by platform.
pub open spec fn joined(base: Seq<char>, name: Seq<char>, r: Seq<char>) -> bool {
    ||| r == base + name
    ||| r == base + seq!['/'] + name
    ||| r == base + seq!['\\'] + name
}

/// `p` starts like a Windows verbatim path (`\\?\...`), which `PathBuf::push`
/// normalises instead of appending to.
pub open spec fn verbatim_like(p: Seq<char>) -> bool {
    p.len() >= 3 && p[0] == '\\' && p[1] == '\\' && p[2] == '?'
}

/// `std::path::Path::join` on UTF-8 paths: `name` pushed onto `base`. For a relative
/// one-component `name`, `PathBuf::push` appends it, after the platform's separator when
/// `base` is neither empty nor ends with one; a path built from UTF-8 text converts back
/// without loss. Which separator (if any) is not stated: it depends on the platform. On
/// Windows a base with a verbatim prefix (`\\?\`) is normalised as it is extended; of
/// such a base (and of any base starting with `\\?`) nothing is stated.
#[verifier::external_body]
pub(crate) fn path_join(base: &str, name: &str) -> (r: String)
    requires
        plain_component(name@),
    ensures
        verbatim_like(base@) || joined(base@, name@, r@),
{
    std::path::Path::new(base).join(name).to_string_lossy().into_owned()
}

} // verus!
