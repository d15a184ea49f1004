//! The TLS settings a node reads from its environment: the ALPN protocols it
//! offers and the cipher suites it allows, each given as a comma-separated list.

use vstd::prelude::*;
use vstd::utf8::encode_utf8;

verus! {

/// The byte that separates the entries of a list.
pub const LIST_SEPARATOR: u8 = 44;

/// The pieces of `b` between the bytes equal to `sep`, in order, as
/// `str::split` cuts them: `k` separators give `k + 1` pieces, and an empty
/// input is one empty piece.
pub open spec fn split_on(b: Seq<u8>, sep: u8) -> Seq<Seq<u8>>
    decreases b.len(),
{
    if b.len() == 0 {
        seq![Seq::<u8>::empty()]
    } else {
        let pieces = split_on(b.drop_last(), sep);
        if b.last() == sep {
            pieces.push(Seq::<u8>::empty())
        } else {
            pieces.update(pieces.len() - 1, pieces.last().push(b.last()))
        }
    }
}

/// Splitting always gives at least one piece.
proof fn lemma_split_on_nonempty(b: Seq<u8>, sep: u8)
    ensures
        split_on(b, sep).len() >= 1,
    decreases b.len(),
{
    if b.len() > 0 {
        lemma_split_on_nonempty(b.drop_last(), sep);
    }
}

/// The contents of each byte buffer of a list.
pub open spec fn buffers_view(v: Seq<Vec<u8>>) -> Seq<Seq<u8>> {
    v.map_values(|b: Vec<u8>| b@)
}

/// Cuts `b` at every `sep` byte.
fn split_bytes(b: &[u8], sep: u8) -> (pieces: Vec<Vec<u8>>)
    ensures
        buffers_view(pieces@) == split_on(b@, sep),
{
    let mut pieces: Vec<Vec<u8>> = Vec::new();
    pieces.push(Vec::new());
    let mut i: usize = 0;
    assert(b@.take(0) =~= Seq::<u8>::empty());
    assert(buffers_view(pieces@) =~= split_on(b@.take(0), sep));
    while i < b.len()
        invariant
            i <= b@.len(),
            buffers_view(pieces@) == split_on(b@.take(i as int), sep),
        decreases b@.len() - i,
    {
        proof {
            lemma_split_on_nonempty(b@.take(i as int), sep);
            assert(b@.take(i as int + 1).drop_last() =~= b@.take(i as int));
        }
        let byte = b[i];
        if byte == sep {
            pieces.push(Vec::new());
            assert(buffers_view(pieces@) =~= split_on(b@.take(i as int + 1), sep));
        } else {
            let ghost before = pieces@;
            let mut last = match pieces.pop() {
                Some(p) => p,
                None => Vec::new(),
            };
            last.push(byte);
            pieces.push(last);
            assert(buffers_view(pieces@) =~= split_on(b@.take(i as int + 1), sep));
        }
        i = i + 1;
    }
    assert(b@.take(b@.len() as int) =~= b@);
    pieces
}

/// Whether two byte strings are equal.
fn bytes_equal(a: &[u8], b: &[u8]) -> (r: bool)
    ensures
        r == (a@ == b@),
{
    if a.len() != b.len() {
        return false;
    }
    let mut i: usize = 0;
    while i < a.len()
        invariant
            a@.len() == b@.len(),
            i <= a@.len(),
            forall|j: int| 0 <= j < i ==> a@[j] == b@[j],
        decreases a@.len() - i,
    {
        if a[i] != b[i] {
            return false;
        }
        i = i + 1;
    }
    assert(a@ =~= b@);
    true
}

/// The ALPN protocols offered when none are configured.
pub open spec fn default_alpn_protocols() -> Seq<u8> {
    encode_utf8("http/1.1,h2"@)
}

/// The ALPN protocols to offer: the entries of the configured list (or of
/// the default list `http/1.1,h2`), each as its bytes.
pub fn alpn_protocols(configured: Option<&str>) -> (protocols: Vec<Vec<u8>>)
    ensures
        buffers_view(protocols@) == split_on(
            match configured {
                Some(s) => encode_utf8(s@),
                None => default_alpn_protocols(),
            },
            LIST_SEPARATOR,
        ),
{
    let list = match configured {
        Some(s) => s,
        None => "http/1.1,h2",
    };
    split_bytes(list.as_bytes(), LIST_SEPARATOR)
}

/// A TLS 1.3 cipher suite the node can use.
#[derive(Clone, Copy, Debug, PartialEq, Eq, Structural)]
pub enum CipherSuite {
    Tls13Aes128GcmSha256,
    Tls13Aes256GcmSha384,
}

/// The cipher suite a name stands for, if it is supported.
pub open spec fn suite_named(name: Seq<u8>) -> Option<CipherSuite> {
    if name == encode_utf8("TLS13_AES_128_GCM_SHA256"@) {
        Some(CipherSuite::Tls13Aes128GcmSha256)
    } else if name == encode_utf8("TLS13_AES_256_GCM_SHA384"@) {
        Some(CipherSuite::Tls13Aes256GcmSha384)
    } else {
        None
    }
}

/// The cipher suites allowed when none are configured.
pub open spec fn default_cipher_suites() -> Seq<u8> {
    encode_utf8("TLS13_AES_128_GCM_SHA256,TLS13_AES_256_GCM_SHA384"@)
}

fn suite_from_name(name: &[u8]) -> (r: Option<CipherSuite>)
    ensures
        r == suite_named(name@),
{
    if bytes_equal(name, "TLS13_AES_128_GCM_SHA256".as_bytes()) {
        Some(CipherSuite::Tls13Aes128GcmSha256)
    } else if bytes_equal(name, "TLS13_AES_256_GCM_SHA384".as_bytes()) {
        Some(CipherSuite::Tls13Aes256GcmSha384)
    } else {
        None
    }
}

/// The entries of the configured cipher-suite list, or of the default list.
pub open spec fn listed_suite_names(configured: Option<&str>) -> Seq<Seq<u8>> {
    split_on(
        match configured {
            Some(s) => encode_utf8(s@),
            None => default_cipher_suites(),
        },
        LIST_SEPARATOR,
    )
}

/// The cipher suites to allow: those named by the configured list (or by the
/// default list), in order. The first entry that names no supported suite is
/// refused and given back.
pub fn cipher_suites(configured: Option<&str>) -> (r: Result<Vec<CipherSuite>, Vec<u8>>)
    ensures
        r is Ok <==> forall|i: int|
            0 <= i < listed_suite_names(configured).len() ==> #[trigger] suite_named(
                listed_suite_names(configured)[i],
            ) is Some,
        r matches Ok(suites) ==> suites@.len() == listed_suite_names(configured).len() && forall|i: int|
            0 <= i < suites@.len() ==> suite_named(listed_suite_names(configured)[i]) == Some(
                #[trigger] suites@[i],
            ),
        r matches Err(bad) ==> exists|i: int|
            0 <= i < listed_suite_names(configured).len() && #[trigger] listed_suite_names(configured)[i]
                == bad@ && suite_named(listed_suite_names(configured)[i]) is None && forall|j: int|
                0 <= j < i ==> #[trigger] suite_named(listed_suite_names(configured)[j]) is Some,
{
    let list = match configured {
        Some(s) => s,
        None => "TLS13_AES_128_GCM_SHA256,TLS13_AES_256_GCM_SHA384",
    };
    let names = split_bytes(list.as_bytes(), LIST_SEPARATOR);
    let ghost spec_names = listed_suite_names(configured);
    assert(buffers_view(names@) == spec_names);
    let mut suites: Vec<CipherSuite> = Vec::new();
    let mut i: usize = 0;
    while i < names.len()
        invariant
            spec_names == buffers_view(names@),
            spec_names == listed_suite_names(configured),
            i <= names@.len(),
            suites@.len() == i,
            forall|j: int| 0 <= j < i ==> #[trigger] suite_named(spec_names[j]) == Some(suites@[j]),
        decreases names@.len() - i,
    {
        match suite_from_name(names[i].as_slice()) {
            Some(suite) => {
                suites.push(suite);
            },
            None => {
                let bad = names[i].clone();
                assert(bad@ == spec_names[i as int]);
                assert(suite_named(spec_names[i as int]) is None);
                return Err(bad);
            },
        }
        i = i + 1;
    }
    Ok(suites)
}

} // verus!
