//! Filename normalization for mirrored documents.
//!
//! Remote visible names may omit the file extension that local mirror files
//! always carry, so every name is normalized before comparison and writing.

use vstd::prelude::*;
use vstd::string::*;

verus! {

/// The required file extension, as a sequence of characters.
pub open spec fn pdf_ext() -> Seq<char> {
    seq!['.', 'p', 'd', 'f']
}

/// Whether a name already ends with the required extension.
pub open spec fn has_pdf_ext(s: Seq<char>) -> bool {
    s.len() >= 4 && s.subrange(s.len() - 4, s.len() as int) == pdf_ext()
}

/// A name normalized to carry the required extension.
pub open spec fn with_pdf_ext(s: Seq<char>) -> Seq<char> {
    if has_pdf_ext(s) {
        s
    } else {
        s + pdf_ext()
    }
}

/// Normalizing an already-normalized name changes nothing.
pub proof fn lemma_with_pdf_ext_idempotent(s: Seq<char>)
    ensures
        with_pdf_ext(with_pdf_ext(s)) == with_pdf_ext(s),
{
    if !has_pdf_ext(s) {
        let t = s + pdf_ext();
        assert(t.subrange(t.len() - 4, t.len() as int) =~= pdf_ext());
    }
}

/// Compares two string slices by their characters.
pub fn str_eq(a: &str, b: &str) -> (r: bool)
    ensures
        r == (a@ == b@),
{
    let sa = a.to_owned();
    let sb = b.to_owned();
    sa == sb
}

/// A base path extended by a folder name: a separating slash is inserted
/// unless the base already ends with one.
pub open spec fn joined(base: Seq<char>, name: Seq<char>) -> Seq<char> {
    if base.len() > 0 && base[base.len() - 1] == '/' {
        base + name
    } else {
        base + seq!['/'] + name
    }
}

/// A directory path extended by a file name, always through a slash.
pub open spec fn under(dir: Seq<char>, name: Seq<char>) -> Seq<char> {
    dir + seq!['/'] + name
}

/// Builds the local path of a folder under a base path.
pub fn join_path(base: &str, name: &str) -> (r: String)
    ensures
        r@ == joined(base@, name@),
{
    let len = base.unicode_len();
    let ends_slash = len > 0 && base.get_char(len - 1) == '/';
    let mut r = base.to_owned();
    if !ends_slash {
        r.append("/");
        proof {
            reveal_strlit("/");
            assert("/"@ =~= seq!['/']);
        }
    }
    r.append(name);
    r
}

/// Builds the local path of a file inside a directory.
pub fn join_under(dir: &str, name: &str) -> (r: String)
    ensures
        r@ == under(dir@, name@),
{
    let mut r = dir.to_owned();
    r.append("/");
    proof {
        reveal_strlit("/");
        assert("/"@ =~= seq!['/']);
    }
    r.append(name);
    r
}

/// Appends the required extension to a name unless it is already there.
pub fn ensure_file_extension(name: &str) -> (r: String)
    ensures
        r@ == with_pdf_ext(name@),
{
    let len = name.unicode_len();
    let already = if len >= 4 {
        let c0 = name.get_char(len - 4);
        let c1 = name.get_char(len - 3);
        let c2 = name.get_char(len - 2);
        let c3 = name.get_char(len - 1);
        c0 == '.' && c1 == 'p' && c2 == 'd' && c3 == 'f'
    } else {
        false
    };
    proof {
        if len >= 4 {
            let tail = name@.subrange(name@.len() - 4, name@.len() as int);
            assert(tail[0] == name@[name@.len() - 4]);
            assert(tail[1] == name@[name@.len() - 3]);
            assert(tail[2] == name@[name@.len() - 2]);
            assert(tail[3] == name@[name@.len() - 1]);
            if already {
                assert(tail =~= pdf_ext());
            }
        }
        assert(already == has_pdf_ext(name@));
    }
    if already {
        name.to_owned()
    } else {
        let mut r = name.to_owned();
        r.append(".pdf");
        proof {
            reveal_strlit(".pdf");
            assert(".pdf"@ =~= pdf_ext());
        }
        r
    }
}

} // verus!
