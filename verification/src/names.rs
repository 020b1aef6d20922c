//! Comparing and measuring names.
use vstd::prelude::*;
use vstd::string::*;
use vstd::utf8::*;

verus! {

/// The model of an optional module name.
pub open spec fn module_view(js_mod: Option<&str>) -> Option<Seq<char>> {
    match js_mod {
        Some(name) => Some(name@),
        None => None,
    }
}

/// Length of a name in bytes without its closing NUL.
pub open spec fn c_length(name: Seq<char>) -> int {
    encode_utf8(name).len() - 1
}

/// Whether two names are the same text.
pub fn same_name(a: &str, b: &str) -> (same: bool)
    ensures
        same == (a@ == b@),
{
    let x: &[u8] = a.as_bytes();
    let y: &[u8] = b.as_bytes();
    proof {
        encode_utf8_decode_utf8(a@);
        encode_utf8_decode_utf8(b@);
    }
    if x.len() != y.len() {
        return false;
    }
    let mut i: usize = 0;
    while i < x.len()
        invariant
            i <= x.len(),
            x.len() == y.len(),
            forall|j: int| 0 <= j < i ==> x@[j] == y@[j],
            x@ == encode_utf8(a@),
            y@ == encode_utf8(b@),
        decreases x.len() - i,
    {
        if x[i] != y[i] {
            return false;
        }
        i += 1;
    }
    assert(x@ =~= y@);
    true
}

/// Whether two optional module names are the same.
pub fn same_module(a: Option<&str>, b: Option<&str>) -> (same: bool)
    ensures
        same == (module_view(a) == module_view(b)),
        same == match (a, b) {
            (Some(x), Some(y)) => x@ == y@,
            (None, None) => true,
            _ => false,
        },
{
    match (a, b) {
        (Some(x), Some(y)) => same_name(x, y),
        (None, None) => true,
        _ => false,
    }
}

/// Length in bytes of a name that ends in NUL, without the NUL.
pub fn name_length(name: &str) -> (length: usize)
    requires
        name@.len() > 0,
    ensures
        length == c_length(name@),
        length + 1 == encode_utf8(name@).len(),
{
    proof {
        encode_utf8_decode_utf8(name@);
        if encode_utf8(name@).len() == 0 {
            assert(encode_utf8(name@) =~= encode_utf8(Seq::<char>::empty()));
            encode_utf8_decode_utf8(Seq::<char>::empty());
        }
    }
    name.as_bytes().len() - 1
}

/// The length of a name leaves out one byte, the closing NUL, and no other: no name is cut,
/// however long it is.
pub proof fn law_the_length_counts_every_byte(name: Seq<char>)
    requires
        name.len() > 0,
    ensures
        c_length(name) + 1 == encode_utf8(name).len(),
        c_length(name) >= 0,
{
    encode_utf8_decode_utf8(name);
    if encode_utf8(name).len() == 0 {
        assert(encode_utf8(name) =~= encode_utf8(Seq::<char>::empty()));
        encode_utf8_decode_utf8(Seq::<char>::empty());
    }
}

/// The model of a module name is its whole text, and no module stays no module.
pub proof fn law_a_module_name_is_its_text(js_mod: Option<&str>)
    ensures
        match js_mod {
            Some(name) => module_view(js_mod) == Some(name@),
            None => module_view(js_mod) is None,
        },
{
}

} // verus!
