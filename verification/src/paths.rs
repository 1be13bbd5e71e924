//! Path manipulation over plain strings: joining a relative component onto a
//! directory, extracting the final file name, and deriving the isolated
//! output directory name used to keep concurrent sub-builds apart.
//!
//! Paths are POSIX-style strings whose components are separated by `/`.

use vstd::prelude::*;
use vstd::string::StrSliceExecFns;
use vstd::string::StringExecFns;

verus! {

/// `a` joined with the relative component `b`: `a/b`, with no separator
/// doubled and an empty `a` yielding `b` alone.
pub open spec fn spec_path_join(a: Seq<char>, b: Seq<char>) -> Seq<char> {
    if a.len() == 0 {
        b
    } else if a.last() == '/' {
        a + b
    } else {
        a + seq!['/'] + b
    }
}

/// Joins the relative component `b` onto the directory `a`.
pub fn path_join(a: &str, b: &str) -> (r: String)
    ensures
        r@ == spec_path_join(a@, b@),
{
    let len = a.unicode_len();
    if len == 0 {
        return b.to_owned();
    }
    let last = a.get_char(len - 1);
    let mut r = a.to_owned();
    if last != '/' {
        r.append("/");
        proof {
            reveal_strlit("/");
            assert(r@ =~= a@ + seq!['/']);
        }
    }
    r.append(b);
    proof {
        if last == '/' {
            assert(r@ =~= a@ + b@);
        } else {
            assert(r@ =~= a@ + seq!['/'] + b@);
        }
    }
    r
}

/// The isolated directory name derived from a destination path: every `/` is
/// replaced by the joiner `__`, so the name holds no separator and distinct
/// destinations map to distinct names.
pub open spec fn spec_dir_name(p: Seq<char>) -> Seq<char>
    decreases p.len(),
{
    if p.len() == 0 {
        p
    } else if p[0] == '/' {
        seq!['_', '_'] + spec_dir_name(p.skip(1))
    } else {
        seq![p[0]] + spec_dir_name(p.skip(1))
    }
}

/// `spec_dir_name` distributes over concatenation.
proof fn lemma_dir_name_concat(a: Seq<char>, b: Seq<char>)
    ensures
        spec_dir_name(a + b) == spec_dir_name(a) + spec_dir_name(b),
    decreases a.len(),
{
    if a.len() == 0 {
        assert(a + b =~= b);
        assert(spec_dir_name(a) + spec_dir_name(b) =~= spec_dir_name(b));
    } else {
        assert((a + b)[0] == a[0]);
        assert((a + b).skip(1) =~= a.skip(1) + b);
        lemma_dir_name_concat(a.skip(1), b);
        if a[0] == '/' {
            assert(spec_dir_name(a + b) =~= spec_dir_name(a) + spec_dir_name(b));
        } else {
            assert(spec_dir_name(a + b) =~= spec_dir_name(a) + spec_dir_name(b));
        }
    }
}

/// Derives the isolated output directory name from a destination path.
pub fn isolated_dir_name(output_path: &str) -> (r: String)
    ensures
        r@ == spec_dir_name(output_path@),
{
    let len = output_path.unicode_len();
    let mut r = String::new();
    let mut i: usize = 0;
    proof {
        assert(output_path@.take(0) =~= Seq::<char>::empty());
    }
    while i < len
        invariant
            i <= len,
            len as nat == output_path@.len(),
            r@ == spec_dir_name(output_path@.take(i as int)),
        decreases len - i,
    {
        let c = output_path.get_char(i);
        proof {
            let s = output_path@;
            assert(s.take(i + 1) =~= s.take(i as int) + seq![s[i as int]]);
            lemma_dir_name_concat(s.take(i as int), seq![s[i as int]]);
            assert(seq![s[i as int]][0] == s[i as int]);
            assert(seq![s[i as int]].skip(1) =~= Seq::<char>::empty());
            assert(spec_dir_name(Seq::<char>::empty()) == Seq::<char>::empty());
            if s[i as int] == '/' {
                assert(spec_dir_name(seq![s[i as int]]) =~= seq!['_', '_']);
            } else {
                assert(spec_dir_name(seq![s[i as int]]) =~= seq![s[i as int]]);
            }
        }
        if c == '/' {
            r.push('_');
            r.push('_');
            proof {
                assert(r@ =~= spec_dir_name(output_path@.take(i + 1)));
            }
        } else {
            r.push(c);
            proof {
                assert(r@ =~= spec_dir_name(output_path@.take(i + 1)));
            }
        }
        i = i + 1;
    }
    proof {
        assert(output_path@.take(len as int) =~= output_path@);
    }
    r
}

/// Deriving the isolated directory name is deterministic and collision-free:
/// for destination paths that hold no literal underscore, two paths map to
/// the same name exactly when they are the same path.
pub proof fn lemma_dir_name_collision_free(a: Seq<char>, b: Seq<char>)
    requires
        forall|i: int| 0 <= i < a.len() ==> a[i] != '_',
        forall|i: int| 0 <= i < b.len() ==> b[i] != '_',
    ensures
        spec_dir_name(a) == spec_dir_name(b) <==> a == b,
    decreases a.len(),
{
    if spec_dir_name(a) == spec_dir_name(b) {
        if a.len() == 0 || b.len() == 0 {
            if a.len() == 0 && b.len() > 0 {
                assert(spec_dir_name(b).len() > 0);
            } else if b.len() == 0 && a.len() > 0 {
                assert(spec_dir_name(a).len() > 0);
            } else {
                assert(a =~= b);
            }
        } else if a[0] == '/' && b[0] == '/' {
            assert(spec_dir_name(a).skip(2) =~= spec_dir_name(a.skip(1)));
            assert(spec_dir_name(b).skip(2) =~= spec_dir_name(b.skip(1)));
            lemma_dir_name_collision_free(a.skip(1), b.skip(1));
            assert(a =~= seq![a[0]] + a.skip(1));
            assert(b =~= seq![b[0]] + b.skip(1));
        } else if a[0] == '/' {
            // the encodings start with '_' and with b[0] != '_': impossible
            assert(spec_dir_name(a)[0] == '_');
            assert(spec_dir_name(b)[0] == b[0]);
            assert(false);
        } else if b[0] == '/' {
            assert(spec_dir_name(b)[0] == '_');
            assert(spec_dir_name(a)[0] == a[0]);
            assert(false);
        } else {
            assert(spec_dir_name(a)[0] == a[0]);
            assert(spec_dir_name(b)[0] == b[0]);
            assert(spec_dir_name(a).skip(1) =~= spec_dir_name(a.skip(1)));
            assert(spec_dir_name(b).skip(1) =~= spec_dir_name(b.skip(1)));
            lemma_dir_name_collision_free(a.skip(1), b.skip(1));
            assert(a =~= seq![a[0]] + a.skip(1));
            assert(b =~= seq![b[0]] + b.skip(1));
        }
    }
}

/// The component after the last `/` of a path; the whole path when it holds
/// no `/`, and empty when it ends with one.
pub open spec fn spec_file_name(s: Seq<char>) -> Seq<char>
    decreases s.len(),
{
    if s.len() == 0 {
        s
    } else if s.last() == '/' {
        Seq::<char>::empty()
    } else {
        spec_file_name(s.drop_last()).push(s.last())
    }
}

/// The file name is the suffix that follows the last separator.
proof fn lemma_file_name_suffix(s: Seq<char>, cut: int)
    requires
        0 <= cut <= s.len(),
        cut > 0 ==> s[cut - 1] == '/',
        forall|j: int| cut <= j < s.len() ==> s[j] != '/',
    ensures
        spec_file_name(s) == s.skip(cut),
    decreases s.len(),
{
    if s.len() == cut {
        if cut == 0 {
            assert(s.skip(0) =~= s);
        } else {
            assert(s.last() == '/');
            assert(s.skip(cut) =~= Seq::<char>::empty());
        }
    } else {
        assert(s.last() != '/');
        lemma_file_name_suffix(s.drop_last(), cut);
        assert(spec_file_name(s) =~= s.skip(cut)) by {
            assert(s.drop_last().skip(cut) =~= s.skip(cut).drop_last());
        };
    }
}

/// A file name holds no separator.
pub proof fn lemma_file_name_no_slash(s: Seq<char>)
    ensures
        forall|i: int| 0 <= i < spec_file_name(s).len() ==> spec_file_name(s)[i] != '/',
    decreases s.len(),
{
    if s.len() == 0 {
    } else if s.last() == '/' {
    } else {
        lemma_file_name_no_slash(s.drop_last());
        let f = spec_file_name(s.drop_last());
        assert forall|i: int| 0 <= i < spec_file_name(s).len() implies spec_file_name(s)[i]
            != '/' by {
            if i < f.len() {
                assert(spec_file_name(s)[i] == f[i]);
            } else {
                assert(spec_file_name(s)[i] == s.last());
            }
        }
    }
}

/// Joining a separator-free name onto a directory yields a path whose file
/// name is exactly that name.
pub proof fn lemma_file_name_of_join(a: Seq<char>, b: Seq<char>)
    requires
        forall|i: int| 0 <= i < b.len() ==> b[i] != '/',
    ensures
        spec_file_name(spec_path_join(a, b)) == b,
{
    if a.len() == 0 {
        lemma_file_name_suffix(b, 0);
        assert(b.skip(0) =~= b);
    } else if a.last() == '/' {
        let s = a + b;
        assert(s[a.len() - 1] == '/');
        lemma_file_name_suffix(s, a.len() as int);
        assert(s.skip(a.len() as int) =~= b);
    } else {
        let s = a + seq!['/'] + b;
        assert(s[a.len() as int] == '/');
        lemma_file_name_suffix(s, a.len() as int + 1);
        assert(s.skip(a.len() as int + 1) =~= b);
    }
}

/// Extracts the file-name component of a path: everything after its last
/// `/`, or the whole path when it holds none.
pub fn file_name(path: &str) -> (r: String)
    ensures
        r@ == spec_file_name(path@),
{
    let len = path.unicode_len();
    let mut cut: usize = 0;
    let mut k: usize = 0;
    while k < len
        invariant
            cut <= k <= len,
            len as nat == path@.len(),
            cut > 0 ==> path@[cut - 1] == '/',
            forall|j: int| cut <= j < k ==> path@[j] != '/',
        decreases len - k,
    {
        if path.get_char(k) == '/' {
            cut = k + 1;
        }
        k = k + 1;
    }
    let r = path.substring_char(cut, len).to_owned();
    proof {
        lemma_file_name_suffix(path@, cut as int);
        assert(path@.subrange(cut as int, len as int) =~= path@.skip(cut as int));
    }
    r
}

} // verus!
