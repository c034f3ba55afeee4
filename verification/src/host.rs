//! Values of the Soroban host that the contract is called with.

use vstd::prelude::*;

verus! {

/// The handle through which a contract reaches the Soroban host.
#[verifier::external_type_specification]
#[verifier::external_body]
pub struct ExEnv(soroban_sdk::Env);

/// A string object of the Soroban host.
#[verifier::external_type_specification]
#[verifier::external_body]
pub struct ExHostString(soroban_sdk::String);

/// A byte array object of the Soroban host.
#[verifier::external_type_specification]
#[verifier::external_body]
pub struct ExHostBytes(soroban_sdk::Bytes);

/// A vector object of the Soroban host.
#[verifier::external_type_specification]
#[verifier::external_body]
#[verifier::reject_recursive_types(T)]
pub struct ExHostVec<T>(soroban_sdk::Vec<T>);

/// The bytes that a host string holds.
pub uninterp spec fn host_string_bytes(s: soroban_sdk::String) -> Seq<u8>;

/// The bytes that a host byte array holds.
pub uninterp spec fn host_bytes(b: soroban_sdk::Bytes) -> Seq<u8>;

/// `soroban_sdk::String::len`: asks the host for the length of the string object, which is the
/// number of bytes it holds.
pub assume_specification[ soroban_sdk::String::len ](s: &soroban_sdk::String) -> (n: u32)
    ensures
        n == host_string_bytes(*s).len(),
;

/// `soroban_sdk::String::is_empty`: whether the length is zero.
pub assume_specification[ soroban_sdk::String::is_empty ](s: &soroban_sdk::String) -> (b: bool)
    ensures
        b == (host_string_bytes(*s).len() == 0),
;

/// `soroban_sdk::String::copy_into_slice`, into a list of the string's length: the list then holds
/// the bytes of the string.
#[verifier::external_body]
pub(crate) fn read_text(s: &soroban_sdk::String) -> (r: Vec<u8>)
    ensures
        r@ == host_string_bytes(*s),
{
    let mut r = vec![0; s.len() as usize];
    s.copy_into_slice(&mut r);
    r
}

/// `soroban_sdk::Bytes::len`: asks the host for the number of bytes in the byte array object.
pub assume_specification[ soroban_sdk::Bytes::len ](b: &soroban_sdk::Bytes) -> (n: u32)
    ensures
        n == host_bytes(*b).len(),
;

/// `soroban_sdk::Bytes::get`: the byte at the place, and nothing from the end of the array on.
pub assume_specification[ soroban_sdk::Bytes::get ](b: &soroban_sdk::Bytes, i: u32) -> (r: Option<
    u8,
>)
    ensures
        r == if i < host_bytes(*b).len() {
            Some(host_bytes(*b)[i as int])
        } else {
            None::<u8>
        },
;

/// The bytes that a host byte array holds.
pub fn read_bytes(b: &soroban_sdk::Bytes) -> (r: Vec<u8>)
    ensures
        r@ == host_bytes(*b),
{
    let n: u32 = b.len();
    let mut r: Vec<u8> = Vec::new();
    let mut i: u32 = 0;
    while i < n
        invariant
            i <= n,
            n == host_bytes(*b).len(),
            r@ =~= host_bytes(*b).take(i as int),
        decreases n - i,
    {
        if let Some(x) = b.get(i) {
            r.push(x);
        }
        i += 1;
    }
    r
}

/// `soroban_sdk::Vec::len`: asks the host for the number of items in the vector object. Its answer
/// is what [`host_vec_len`] names; a clause that says so would define the length by itself, so the
/// call is left without one.
pub assume_specification<T>[ soroban_sdk::Vec::<T>::len ](v: &soroban_sdk::Vec<T>) -> u32
;

/// The number of items in a host vector: what `soroban_sdk::Vec::len` answers for it.
pub open spec fn host_vec_len<T>(v: soroban_sdk::Vec<T>) -> u32 {
    choose|n: u32| call_ensures(soroban_sdk::Vec::<T>::len, (&v,), n)
}

/// `soroban_sdk::Vec::is_empty`: whether the length is zero.
pub assume_specification<T>[ soroban_sdk::Vec::<T>::is_empty ](v: &soroban_sdk::Vec<T>) -> (b: bool)
    ensures
        b == (host_vec_len(*v) == 0),
;

} // verus!
