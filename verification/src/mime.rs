//! Content-type derivation from a file path.
//!
//! The extension of a path is the part of its file name after the last dot,
//! as the platform's path library reads it: a name whose only dot is the
//! leading one (a hidden file) has no extension. A fixed table maps the
//! known extensions to their content types; everything else, including a
//! missing extension, maps to a generic binary type. The mapping is total.

use vstd::prelude::*;
use crate::{DOT, SLASH};

verus! {

/// The file name of a path: the longest suffix that holds no separator.
pub open spec fn file_name_of(p: Seq<u8>) -> Seq<u8>
    decreases p.len(),
{
    if p.len() == 0 {
        Seq::empty()
    } else if p.last() == SLASH {
        Seq::empty()
    } else {
        file_name_of(p.drop_last()).push(p.last())
    }
}

/// The bytes after the last dot of `f`, or `None` when `f` has no dot.
pub open spec fn after_last_dot(f: Seq<u8>) -> Option<Seq<u8>>
    decreases f.len(),
{
    if f.len() == 0 {
        None
    } else if f.last() == DOT {
        Some(Seq::empty())
    } else {
        match after_last_dot(f.drop_last()) {
            None => None,
            Some(e) => Some(e.push(f.last())),
        }
    }
}

/// The extension of a path: the part of its file name after the last dot.
/// Absent when the file name has no dot, or only its leading byte is one.
pub open spec fn extension_of(p: Seq<u8>) -> Option<Seq<u8>> {
    let f = file_name_of(p);
    match after_last_dot(f) {
        None => None,
        Some(e) => if e.len() == f.len() - 1 {
            None
        } else {
            Some(e)
        },
    }
}

/// The bytes of "html".
pub open spec fn ext_html() -> Seq<u8> {
    seq![104u8, 116u8, 109u8, 108u8]
}

/// The bytes of "css".
pub open spec fn ext_css() -> Seq<u8> {
    seq![99u8, 115u8, 115u8]
}

/// The bytes of "js".
pub open spec fn ext_js() -> Seq<u8> {
    seq![106u8, 115u8]
}

/// The bytes of "json".
pub open spec fn ext_json() -> Seq<u8> {
    seq![106u8, 115u8, 111u8, 110u8]
}

/// The bytes of "png".
pub open spec fn ext_png() -> Seq<u8> {
    seq![112u8, 110u8, 103u8]
}

/// The bytes of "jpg".
pub open spec fn ext_jpg() -> Seq<u8> {
    seq![106u8, 112u8, 103u8]
}

/// The bytes of "jpeg".
pub open spec fn ext_jpeg() -> Seq<u8> {
    seq![106u8, 112u8, 101u8, 103u8]
}

/// The bytes of "gif".
pub open spec fn ext_gif() -> Seq<u8> {
    seq![103u8, 105u8, 102u8]
}

/// The bytes of "svg".
pub open spec fn ext_svg() -> Seq<u8> {
    seq![115u8, 118u8, 103u8]
}

/// The content type for an extension: the fixed table, with a generic
/// binary type for an absent or unlisted extension.
pub open spec fn mime_of_ext(e: Option<Seq<u8>>) -> Seq<char> {
    match e {
        Option::None => "application/octet-stream"@,
        Option::Some(x) => if x == ext_html() {
            "text/html"@
        } else if x == ext_css() {
            "text/css"@
        } else if x == ext_js() {
            "application/javascript"@
        } else if x == ext_json() {
            "application/json"@
        } else if x == ext_png() {
            "image/png"@
        } else if x == ext_jpg() || x == ext_jpeg() {
            "image/jpeg"@
        } else if x == ext_gif() {
            "image/gif"@
        } else if x == ext_svg() {
            "image/svg+xml"@
        } else {
            "application/octet-stream"@
        },
    }
}

/// The content type served for a path.
pub open spec fn mime_of(p: Seq<u8>) -> Seq<char> {
    mime_of_ext(extension_of(p))
}

/// Whether an extension is in the fixed table.
pub open spec fn known_extension(x: Seq<u8>) -> bool {
    x == ext_html() || x == ext_css() || x == ext_js() || x == ext_json() || x == ext_png()
        || x == ext_jpg() || x == ext_jpeg() || x == ext_gif() || x == ext_svg()
}

/// The table is total: a missing extension, and every extension outside the
/// table, map to the generic binary type, and nothing in the table does.
pub proof fn lemma_mime_default(x: Seq<u8>)
    ensures
        mime_of_ext(Option::None) == "application/octet-stream"@,
        !known_extension(x) ==> mime_of_ext(Option::Some(x)) == "application/octet-stream"@,
        known_extension(x) ==> mime_of_ext(Option::Some(x)) != "application/octet-stream"@,
{
    reveal_strlit("text/html");
    reveal_strlit("text/css");
    reveal_strlit("application/javascript");
    reveal_strlit("application/json");
    reveal_strlit("image/png");
    reveal_strlit("image/jpeg");
    reveal_strlit("image/gif");
    reveal_strlit("image/svg+xml");
    reveal_strlit("application/octet-stream");
    assert("application/octet-stream"@.len() == 24);
    assert("text/html"@.len() == 9);
    assert("text/css"@.len() == 8);
    assert("application/javascript"@.len() == 22);
    assert("application/json"@.len() == 16);
    assert("image/png"@.len() == 9);
    assert("image/jpeg"@.len() == 10);
    assert("image/gif"@.len() == 9);
    assert("image/svg+xml"@.len() == 13);
}

/// A suffix that starts right after a separator (or at the start) and holds
/// no separator of its own is the file name.
proof fn lemma_file_name(p: Seq<u8>, k: int)
    requires
        0 <= k <= p.len(),
        k == 0 || p[k - 1] == SLASH,
        forall|j: int| k <= j < p.len() ==> p[j] != SLASH,
    ensures
        file_name_of(p) == p.subrange(k, p.len() as int),
    decreases p.len(),
{
    if p.len() == 0 {
        assert(file_name_of(p) =~= p.subrange(0, 0));
    } else if k == p.len() {
        assert(p.last() == SLASH);
        assert(file_name_of(p) =~= p.subrange(k, p.len() as int));
    } else {
        assert(p.last() != SLASH);
        lemma_file_name(p.drop_last(), k);
        assert(file_name_of(p.drop_last()).push(p.last()) =~= p.subrange(
            k,
            p.len() as int,
        ));
    }
}

/// When `f` has a dot at `d` and none after it, the part after the last dot
/// is exactly the suffix that follows `d`.
proof fn lemma_after_last_dot(f: Seq<u8>, d: int)
    requires
        0 <= d < f.len(),
        f[d] == DOT,
        forall|j: int| d < j < f.len() ==> f[j] != DOT,
    ensures
        after_last_dot(f) == Option::Some(f.subrange(d + 1, f.len() as int)),
    decreases f.len(),
{
    if d == f.len() - 1 {
        assert(f.last() == DOT);
        assert(after_last_dot(f) =~= Option::Some(f.subrange(d + 1, f.len() as int)));
        assert(f.subrange(d + 1, f.len() as int) =~= Seq::<u8>::empty());
    } else {
        assert(f.last() != DOT);
        lemma_after_last_dot(f.drop_last(), d);
        let e = f.drop_last().subrange(d + 1, f.len() - 1);
        assert(e.push(f.last()) =~= f.subrange(d + 1, f.len() as int));
    }
}

/// A sequence with no dot has nothing after a last dot.
proof fn lemma_after_no_dot(f: Seq<u8>)
    requires
        forall|j: int| 0 <= j < f.len() ==> f[j] != DOT,
    ensures
        after_last_dot(f) == Option::<Seq<u8>>::None,
    decreases f.len(),
{
    if f.len() > 0 {
        lemma_after_no_dot(f.drop_last());
    }
}

/// The content type for an extension that is present, over the fixed table.
pub fn mime_for_extension(ext: &[u8]) -> (r: &'static str)
    ensures
        r@ == mime_of_ext(Option::Some(ext@)),
{
    if ext.len() == 4 && ext[0] == 104 && ext[1] == 116 && ext[2] == 109 && ext[3] == 108 {
        proof {
            assert(ext@ =~= ext_html());
        }
        "text/html"
    } else if ext.len() == 3 && ext[0] == 99 && ext[1] == 115 && ext[2] == 115 {
        proof {
            assert(ext@ =~= ext_css());
        }
        "text/css"
    } else if ext.len() == 2 && ext[0] == 106 && ext[1] == 115 {
        proof {
            assert(ext@ =~= ext_js());
        }
        "application/javascript"
    } else if ext.len() == 4 && ext[0] == 106 && ext[1] == 115 && ext[2] == 111 && ext[3] == 110 {
        proof {
            assert(ext@ =~= ext_json());
        }
        "application/json"
    } else if ext.len() == 3 && ext[0] == 112 && ext[1] == 110 && ext[2] == 103 {
        proof {
            assert(ext@ =~= ext_png());
        }
        "image/png"
    } else if ext.len() == 3 && ext[0] == 106 && ext[1] == 112 && ext[2] == 103 {
        proof {
            assert(ext@ =~= ext_jpg());
        }
        "image/jpeg"
    } else if ext.len() == 4 && ext[0] == 106 && ext[1] == 112 && ext[2] == 101 && ext[3] == 103 {
        proof {
            assert(ext@ =~= ext_jpeg());
        }
        "image/jpeg"
    } else if ext.len() == 3 && ext[0] == 103 && ext[1] == 105 && ext[2] == 102 {
        proof {
            assert(ext@ =~= ext_gif());
        }
        "image/gif"
    } else if ext.len() == 3 && ext[0] == 115 && ext[1] == 118 && ext[2] == 103 {
        proof {
            assert(ext@ =~= ext_svg());
        }
        "image/svg+xml"
    } else {
        proof {
            assert(ext@ != ext_html());
            assert(ext@ != ext_css());
            assert(ext@ != ext_js());
            assert(ext@ != ext_json());
            assert(ext@ != ext_png());
            assert(ext@ != ext_jpg());
            assert(ext@ != ext_jpeg());
            assert(ext@ != ext_gif());
            assert(ext@ != ext_svg());
        }
        "application/octet-stream"
    }
}

/// The content type served for a path, derived from its extension alone.
pub fn get_mime_type(path: &[u8]) -> (r: &'static str)
    ensures
        r@ == mime_of(path@),
{
    let n = path.len();
    let mut fstart: usize = 0;
    let mut i: usize = 0;
    while i < n
        invariant
            n == path@.len(),
            0 <= fstart <= i <= n,
            fstart == 0 || path@[fstart - 1] == SLASH,
            forall|j: int| fstart <= j < i ==> path@[j] != SLASH,
        decreases n - i,
    {
        if path[i] == SLASH {
            fstart = i + 1;
        }
        i += 1;
    }
    proof {
        lemma_file_name(path@, fstart as int);
    }
    let mut dpos: usize = 0;
    let mut has_dot = false;
    let mut i: usize = fstart;
    while i < n
        invariant
            n == path@.len(),
            fstart <= i <= n,
            has_dot ==> fstart <= dpos < i && path@[dpos as int] == DOT,
            has_dot ==> forall|j: int| dpos < j < i ==> path@[j] != DOT,
            !has_dot ==> forall|j: int| fstart <= j < i ==> path@[j] != DOT,
        decreases n - i,
    {
        if path[i] == DOT {
            dpos = i;
            has_dot = true;
        }
        i += 1;
    }
    let ghost f = file_name_of(path@);
    if !has_dot || dpos == fstart {
        proof {
            if !has_dot {
                lemma_after_no_dot(f);
            } else {
                lemma_after_last_dot(f, dpos - fstart);
                assert(f.subrange(dpos - fstart + 1, f.len() as int).len() == f.len() - 1);
            }
            assert(extension_of(path@) is None);
        }
        "application/octet-stream"
    } else {
        let ext = vstd::slice::slice_subrange(path, dpos + 1, n);
        proof {
            lemma_after_last_dot(f, dpos - fstart);
            assert(f.subrange(dpos - fstart + 1, f.len() as int) =~= ext@);
            assert(f.subrange(dpos - fstart + 1, f.len() as int).len() != f.len() - 1);
            assert(extension_of(path@) == Option::Some(ext@));
        }
        mime_for_extension(ext)
    }
}

} // verus!
