//! Paths as bytes.
//!
//! A path is a sequence of bytes, as the system has it: it need not be text.

use vstd::prelude::*;
use vstd::utf8::encode_utf8;

verus! {

/// The byte that parts the names in a path.
pub const SEPARATOR: u8 = 0x2f;

/// A name below a directory: the two with one separator between them, where
/// the directory does not end in one and is not empty. An absolute name
/// stands alone.
pub open spec fn path_join(dir: Seq<u8>, name: Seq<u8>) -> Seq<u8> {
    if name.len() > 0 && name[0] == SEPARATOR {
        name
    } else if dir.len() == 0 || dir.last() == SEPARATOR {
        dir + name
    } else {
        dir.push(SEPARATOR) + name
    }
}

/// The bytes of a text.
pub open spec fn utf8(text: Seq<char>) -> Seq<u8> {
    encode_utf8(text)
}

/// The bytes of a path that may be absent.
pub open spec fn opt_bytes(path: Option<&[u8]>) -> Option<Seq<u8>> {
    match path {
        Some(bytes) => Some(bytes@),
        None => None,
    }
}

/// The path of a name below a directory.
pub fn join(dir: &[u8], name: &[u8]) -> (path: Vec<u8>)
    ensures
        path@ == path_join(dir@, name@),
{
    let mut path: Vec<u8> = Vec::new();
    if name.len() > 0 && name[0] == SEPARATOR {
        path.extend_from_slice(name);
        return path;
    }
    path.extend_from_slice(dir);
    if dir.len() > 0 && dir[dir.len() - 1] != SEPARATOR {
        path.push(SEPARATOR);
    }
    path.extend_from_slice(name);
    path
}

/// The bytes of a text.
pub fn bytes_of(text: &str) -> (bytes: Vec<u8>)
    ensures
        bytes@ == utf8(text@),
{
    let mut bytes: Vec<u8> = Vec::new();
    bytes.extend_from_slice(text.as_bytes());
    bytes
}

/// A relative name below a directory keeps the directory in front and the
/// name at the end.
pub proof fn law_join_keeps_both(dir: Seq<u8>, name: Seq<u8>)
    requires
        name.len() > 0,
        name[0] != SEPARATOR,
    ensures
        dir.is_prefix_of(path_join(dir, name)),
        name.is_suffix_of(path_join(dir, name)),
{
    let path = path_join(dir, name);
    assert(path.subrange(0, dir.len() as int) =~= dir);
    assert(path.subrange(path.len() - name.len(), path.len() as int) =~= name);
}

/// A name is joined to a directory with one separator between them, and with no
/// more than that; an absolute name stands alone.
pub proof fn law_one_separator_is_put_between(dir: &[u8], name: &[u8], path: Vec<u8>)
    requires
        call_ensures(join, (dir, name), path),
    ensures
        name@.len() > 0 && name@[0] == 0x2f ==> path@ == name@,
        !(name@.len() > 0 && name@[0] == 0x2f) && dir@.len() > 0 && dir@.last() != 0x2f ==> path@
            == dir@ + seq![0x2fu8] + name@,
        !(name@.len() > 0 && name@[0] == 0x2f) && (dir@.len() == 0 || dir@.last() == 0x2f) ==> path@
            == dir@ + name@,
{
}

} // verus!
