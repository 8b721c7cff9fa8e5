//! Where objects are stored: the local object store's paths and the
//! URLs of an S3-compatible bucket.
use vstd::prelude::*;
use crate::text::{copy_string, owned, push_char, push_str, push_string, str_chars, string_of};

verus! {

/// Every non-overlapping `..` (left to right) replaced by `_`.
pub open spec fn defuse(s: Seq<char>) -> Seq<char>
    decreases s.len(),
{
    if s.len() >= 2 && s[0] == '.' && s[1] == '.' {
        seq!['_'] + defuse(s.subrange(2, s.len() as int))
    } else if s.len() == 0 {
        s
    } else {
        seq![s[0]] + defuse(s.drop_first())
    }
}

/// `root` joined with `p` as a Unix path: an absolute `p` replaces the root;
/// otherwise a `/` separates them unless the root is empty or ends with one.
pub open spec fn join_path(root: Seq<char>, p: Seq<char>) -> Seq<char> {
    if p.len() > 0 && p[0] == '/' {
        p
    } else if root.len() == 0 {
        p
    } else if root.last() == '/' {
        root + p
    } else {
        root + seq!['/'] + p
    }
}

/// Objects kept as files under a root directory.
#[derive(Debug, Clone)]
pub struct LocalObjectStore {
    pub root: String,
}

impl LocalObjectStore {
    /// A store rooted at the directory.
    pub fn new(root: &str) -> (s: LocalObjectStore)
        ensures
            s.root@ == root@,
    {
        LocalObjectStore { root: owned(root) }
    }

    /// The file of an object: the key under the root, every `..` in it
    /// replaced by `_`.
    pub fn path_for(&self, key: &str) -> (r: String)
        ensures
            r@ == join_path(self.root@, defuse(key@)),
    {
        let c = str_chars(key);
        let n = c.len();
        let mut out: Vec<char> = Vec::new();
        let mut i: usize = 0;
        proof {
            assert(c@.subrange(0, n as int) =~= c@);
        }
        while i < n
            invariant
                i <= n,
                n == c@.len(),
                out@ + defuse(c@.subrange(i as int, n as int)) == defuse(c@),
            decreases n - i,
        {
            let ghost rest = c@.subrange(i as int, n as int);
            if i + 1 < n && c[i] == '.' && c[i + 1] == '.' {
                out.push('_');
                proof {
                    assert(rest.subrange(2, rest.len() as int) =~= c@.subrange(i + 2, n as int));
                    assert(out@ + defuse(c@.subrange(i + 2, n as int)) =~= out@.drop_last() + defuse(rest));
                }
                i += 2;
            } else {
                out.push(c[i]);
                proof {
                    assert(rest.drop_first() =~= c@.subrange(i + 1, n as int));
                    assert(out@ + defuse(c@.subrange(i + 1, n as int)) =~= out@.drop_last() + defuse(rest));
                }
                i += 1;
            }
        }
        proof {
            assert(c@.subrange(n as int, n as int) =~= Seq::<char>::empty());
            assert(out@ + Seq::<char>::empty() =~= out@);
        }
        let safe = string_of(out.as_slice());
        let rc = str_chars(self.root.as_str());
        if out.len() > 0 && out[0] == '/' {
            safe
        } else if rc.len() == 0 {
            safe
        } else if rc[rc.len() - 1] == '/' {
            let mut p = copy_string(&self.root);
            push_string(&mut p, &safe);
            p
        } else {
            let mut p = copy_string(&self.root);
            push_char(&mut p, '/');
            push_string(&mut p, &safe);
            p
        }
    }
}

/// `s` without its trailing `/` characters (std `trim_end_matches('/')`).
pub open spec fn trim_slashes(s: Seq<char>) -> Seq<char>
    decreases s.len(),
{
    if s.len() > 0 && s.last() == '/' {
        trim_slashes(s.drop_last())
    } else {
        s
    }
}

/// Objects kept in an S3-compatible bucket, addressed path-style.
#[derive(Debug, Clone)]
pub struct S3HttpStore {
    pub endpoint: String,
    pub bucket: String,
}

impl S3HttpStore {
    pub fn new(endpoint: String, bucket: String) -> (s: S3HttpStore)
        ensures
            s.endpoint@ == endpoint@,
            s.bucket@ == bucket@,
    {
        S3HttpStore { endpoint, bucket }
    }

    /// The URL of an object: the endpoint without trailing slashes, the
    /// bucket and the key.
    pub fn url(&self, key: &str) -> (r: String)
        ensures
            r@ == trim_slashes(self.endpoint@) + "/"@ + self.bucket@ + "/"@ + key@,
    {
        let c = str_chars(self.endpoint.as_str());
        let mut n = c.len();
        proof {
            assert(c@.subrange(0, c@.len() as int) =~= c@);
        }
        while n > 0 && c[n - 1] == '/'
            invariant
                n <= c@.len(),
                trim_slashes(c@.subrange(0, n as int)) == trim_slashes(c@),
            decreases n,
        {
            proof {
                assert(c@.subrange(0, n as int).drop_last() =~= c@.subrange(0, n - 1));
            }
            n -= 1;
        }
        let mut out = string_of(crate::text::slice_chars(c.as_slice(), 0, n).as_slice());
        push_str(&mut out, "/");
        push_string(&mut out, &self.bucket);
        push_str(&mut out, "/");
        push_str(&mut out, key);
        out
    }
}

} // verus!
