use vstd::prelude::*;
use vstd::string::StringSliceAdditionalSpecFns;

verus! {

/// The two-byte big-endian length prefix that the external registry
/// module puts before a namespace.
pub open spec fn length_prefix(n: nat) -> Seq<u8> {
    seq![(n / 256) as u8, (n % 256) as u8]
}

/// A namespaced raw storage key as the external registry module lays it
/// out: the length-prefixed namespace followed by the identifier bytes.
/// The layout must match the registry byte for byte.
pub open spec fn registry_key(namespace: Seq<u8>, name: Seq<u8>) -> Seq<u8> {
    length_prefix(namespace.len()) + namespace + name
}

/// The namespace under which the registry keeps asset descriptors:
/// the bytes of `"assets"`.
pub open spec fn assets_namespace() -> Seq<u8> {
    seq![97u8, 115u8, 115u8, 101u8, 116u8, 115u8]
}

/// The namespace under which the registry keeps contract addresses:
/// the bytes of `"contracts"`.
pub open spec fn contracts_namespace() -> Seq<u8> {
    seq![99u8, 111u8, 110u8, 116u8, 114u8, 97u8, 99u8, 116u8, 115u8]
}

/// Glues a namespace and a key into one byte vector.
pub fn concat(namespace: &[u8], key: &[u8]) -> (r: Vec<u8>)
    ensures
        r@ == namespace@ + key@,
{
    let mut k: Vec<u8> = Vec::new();
    let mut i: usize = 0;
    while i < namespace.len()
        invariant
            i <= namespace@.len(),
            k@ == namespace@.subrange(0, i as int),
        decreases namespace@.len() - i,
    {
        proof {
            assert(namespace@.subrange(0, i as int + 1) =~= namespace@.subrange(0, i as int).push(
                namespace@[i as int],
            ));
        }
        k.push(namespace[i]);
        i = i + 1;
    }
    proof {
        assert(namespace@.subrange(0, namespace@.len() as int) =~= namespace@);
        assert(namespace@ + key@.subrange(0, 0) =~= namespace@);
    }
    let mut j: usize = 0;
    while j < key.len()
        invariant
            j <= key@.len(),
            k@ == namespace@ + key@.subrange(0, j as int),
        decreases key@.len() - j,
    {
        proof {
            assert((namespace@ + key@.subrange(0, j as int)).push(key@[j as int]) =~= namespace@
                + key@.subrange(0, j as int + 1));
        }
        k.push(key[j]);
        j = j + 1;
    }
    proof {
        assert(namespace@ + key@.subrange(0, key@.len() as int) =~= namespace@ + key@);
    }
    k
}

/// Frames a namespace the way the external registry expects it: its
/// two-byte big-endian length, then its bytes. Namespaces longer than
/// `0xffff` bytes cannot be framed.
pub fn to_length_prefixed(namespace: &[u8]) -> (r: Vec<u8>)
    requires
        namespace@.len() <= 0xffff,
    ensures
        r@ == length_prefix(namespace@.len()) + namespace@,
{
    let len: usize = namespace.len();
    let mut prefix: Vec<u8> = Vec::new();
    prefix.push((len / 256) as u8);
    prefix.push((len % 256) as u8);
    proof {
        assert(prefix@ =~= length_prefix(namespace@.len()));
    }
    concat(prefix.as_slice(), namespace)
}

/// The bytes of the `"assets"` namespace.
fn assets_namespace_bytes() -> (r: Vec<u8>)
    ensures
        r@ == assets_namespace(),
{
    let mut v: Vec<u8> = Vec::new();
    v.push(97u8);
    v.push(115u8);
    v.push(115u8);
    v.push(101u8);
    v.push(116u8);
    v.push(115u8);
    proof {
        assert(v@ =~= assets_namespace());
    }
    v
}

/// The bytes of the `"contracts"` namespace.
fn contracts_namespace_bytes() -> (r: Vec<u8>)
    ensures
        r@ == contracts_namespace(),
{
    let mut v: Vec<u8> = Vec::new();
    v.push(99u8);
    v.push(111u8);
    v.push(110u8);
    v.push(116u8);
    v.push(114u8);
    v.push(97u8);
    v.push(99u8);
    v.push(116u8);
    v.push(115u8);
    proof {
        assert(v@ =~= contracts_namespace());
    }
    v
}

/// The raw storage key under which the external registry keeps the
/// descriptor of one asset name.
pub fn asset_key(asset_name: &str) -> (r: Vec<u8>)
    ensures
        r@ == registry_key(assets_namespace(), asset_name.spec_bytes()),
{
    let ns: Vec<u8> = assets_namespace_bytes();
    let prefixed: Vec<u8> = to_length_prefixed(ns.as_slice());
    let r: Vec<u8> = concat(prefixed.as_slice(), asset_name.as_bytes());
    proof {
        assert(r@ =~= registry_key(assets_namespace(), asset_name.spec_bytes()));
    }
    r
}

/// The raw storage key under which the external registry keeps one
/// contract address.
pub fn contract_key(contract_name: &str) -> (r: Vec<u8>)
    ensures
        r@ == registry_key(contracts_namespace(), contract_name.spec_bytes()),
{
    let ns: Vec<u8> = contracts_namespace_bytes();
    let prefixed: Vec<u8> = to_length_prefixed(ns.as_slice());
    let r: Vec<u8> = concat(prefixed.as_slice(), contract_name.as_bytes());
    proof {
        assert(r@ =~= registry_key(contracts_namespace(), contract_name.spec_bytes()));
    }
    r
}

} // verus!
