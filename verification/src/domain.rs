//! Domain names as byte sequences, and the blocklist classification policy.
//!
//! A fully-qualified domain name is carried as the utf-8 bytes of its textual
//! form, label separator included at the end. A name is blocked iff some
//! blocklist entry matches its end at a label boundary, so that an entry
//! `example.com.` matches `example.com.` and `sub.example.com.` but not
//! `notexample.com.`.

use vstd::prelude::*;

verus! {

/// The label separator `.` as a byte.
pub const LABEL_SEP: u8 = 46;

/// `suffix` matches the end of `name` byte-for-byte, and the match starts at
/// a label boundary: either it covers the whole name, or a label separator
/// stands immediately before it.
pub open spec fn is_boundary_suffix(name: Seq<u8>, suffix: Seq<u8>) -> bool {
    &&& suffix.len() <= name.len()
    &&& name.subrange(name.len() - suffix.len(), name.len() as int) == suffix
    &&& (suffix.len() == name.len() || name[name.len() - suffix.len() - 1] == LABEL_SEP)
}

/// A name is blocked iff some blocklist entry matches its end at a label
/// boundary.
pub open spec fn spec_blocked(name: Seq<u8>, blocklist: Seq<Seq<u8>>) -> bool {
    exists|i: int| 0 <= i < blocklist.len() && is_boundary_suffix(name, blocklist[i])
}

/// The question name of the reverse lookup for the loopback address,
/// `1.0.0.127.in-addr.arpa.`, as utf-8 bytes.
pub open spec fn ptr_qname() -> Seq<u8> {
    seq![
        49u8, 46u8, 48u8, 46u8, 48u8, 46u8, 49u8, 50u8, 55u8, 46u8, 105u8, 110u8, 45u8, 97u8,
        100u8, 100u8, 114u8, 46u8, 97u8, 114u8, 112u8, 97u8, 46u8,
    ]
}

/// The reverse-lookup question name for the loopback address, as a vector.
pub fn ptr_qname_bytes() -> (r: Vec<u8>)
    ensures
        r@ == ptr_qname(),
{
    let mut r: Vec<u8> = Vec::new();
    r.push(49);
    r.push(46);
    r.push(48);
    r.push(46);
    r.push(48);
    r.push(46);
    r.push(49);
    r.push(50);
    r.push(55);
    r.push(46);
    r.push(105);
    r.push(110);
    r.push(45);
    r.push(97);
    r.push(100);
    r.push(100);
    r.push(114);
    r.push(46);
    r.push(97);
    r.push(114);
    r.push(112);
    r.push(97);
    r.push(46);
    proof {
        assert(r@ =~= ptr_qname());
    }
    r
}

/// Byte-for-byte equality of two byte vectors.
pub fn bytes_eq(a: &Vec<u8>, b: &Vec<u8>) -> (r: bool)
    ensures
        r == (a@ == b@),
{
    if a.len() != b.len() {
        return false;
    }
    let mut i: usize = 0;
    while i < a.len()
        invariant
            i <= a.len(),
            a.len() == b.len(),
            forall|j: int| 0 <= j < i ==> a@[j] == b@[j],
        decreases a.len() - i,
    {
        if a[i] != b[i] {
            return false;
        }
        i += 1;
    }
    proof {
        assert(a@ =~= b@);
    }
    true
}

/// A copy of a byte vector with the same contents.
pub fn clone_bytes(v: &Vec<u8>) -> (r: Vec<u8>)
    ensures
        r@ == v@,
{
    let mut r: Vec<u8> = Vec::new();
    let mut i: usize = 0;
    while i < v.len()
        invariant
            i <= v.len(),
            r@ == v@.take(i as int),
        decreases v.len() - i,
    {
        r.push(v[i]);
        i += 1;
        proof {
            assert(r@ =~= v@.take(i as int));
        }
    }
    proof {
        assert(v@.take(v.len() as int) =~= v@);
    }
    r
}

/// Whether `suffix` matches the end of `name` at a label boundary.
pub fn ends_at_boundary(name: &Vec<u8>, suffix: &Vec<u8>) -> (r: bool)
    ensures
        r == is_boundary_suffix(name@, suffix@),
{
    if suffix.len() > name.len() {
        return false;
    }
    let off = name.len() - suffix.len();
    let mut i: usize = 0;
    while i < suffix.len()
        invariant
            i <= suffix.len(),
            suffix.len() <= name.len(),
            off == name.len() - suffix.len(),
            forall|j: int| 0 <= j < i ==> name@[off + j] == suffix@[j],
        decreases suffix.len() - i,
    {
        if name[off + i] != suffix[i] {
            proof {
                assert(name@.subrange(off as int, name@.len() as int)[i as int]
                    == name@[off + i]);
            }
            return false;
        }
        i += 1;
    }
    proof {
        assert(name@.subrange(off as int, name@.len() as int) =~= suffix@);
    }
    if off == 0 {
        true
    } else {
        name[off - 1] == LABEL_SEP
    }
}

/// Whether some blocklist entry matches the end of `name` at a label
/// boundary.
pub fn blocked(name: &Vec<u8>, blocklist: &Vec<Vec<u8>>) -> (r: bool)
    ensures
        r == spec_blocked(name@, blocklist.deep_view()),
{
    let mut i: usize = 0;
    while i < blocklist.len()
        invariant
            i <= blocklist.len(),
            forall|j: int| 0 <= j < i ==> !is_boundary_suffix(name@, blocklist.deep_view()[j]),
        decreases blocklist.len() - i,
    {
        proof {
            assert(blocklist.deep_view()[i as int] == blocklist@[i as int]@);
        }
        if ends_at_boundary(name, &blocklist[i]) {
            return true;
        }
        i += 1;
    }
    false
}

} // verus!
