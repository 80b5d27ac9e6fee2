//! Text forms of keys, signatures and block anchors: base58 payloads behind
//! curve prefixes, as they appear in calls and configuration.

use vstd::prelude::*;

use crate::base58::{base58_decoded, bs58_decode};
use crate::near_types::{BlockHash, ED25519PublicKey, ED25519Signature, PublicKey, PublicKeyView,
    Secp256K1PublicKey, Secp256K1Signature, Signature, SignatureView};

verus! {

/// Whether `s` begins with `p`.
pub open spec fn has_prefix(s: Seq<char>, p: Seq<char>) -> bool {
    s.len() >= p.len() && s.subrange(0, p.len() as int) == p
}

/// Whether `s` begins with `p`, whose character count is `plen`.
fn str_starts_with(s: &str, p: &str, plen: usize) -> (r: bool)
    requires
        plen == p@.len(),
    ensures
        r == has_prefix(s@, p@),
{
    let n = s.unicode_len();
    if n < plen {
        false
    } else {
        let head = s.substring_char(0, plen).to_owned();
        let expected = p.to_owned();
        head == expected
    }
}

/// Text cannot begin with both curve prefixes.
proof fn lemma_prefixes_disjoint(s: Seq<char>)
    ensures
        !(has_prefix(s, "ed25519:"@) && has_prefix(s, "secp256k1:"@)),
{
    reveal_strlit("ed25519:");
    reveal_strlit("secp256k1:");
    if has_prefix(s, "ed25519:"@) && has_prefix(s, "secp256k1:"@) {
        assert(s.subrange(0, 8)[0] == s[0]);
        assert(s.subrange(0, 10)[0] == s[0]);
        assert("ed25519:"@[0] == 'e');
        assert("secp256k1:"@[0] == 's');
    }
}

/// The base58 bytes a text denotes when they have exactly `n` bytes.
pub open spec fn decoded_fixed(s: Seq<char>, n: int) -> Option<Seq<u8>> {
    match base58_decoded(s) {
        Some(b) => if b.len() == n {
            Some(b)
        } else {
            None
        },
        None => None,
    }
}

/// Decodes base58 text into exactly `N` bytes.
pub fn decode_base58_to_fixed_bytes<const N: usize>(input: &str) -> (r: Result<[u8; N], String>)
    ensures
        match r {
            Ok(a) => decoded_fixed(input@, N as int) == Some(a@),
            Err(_) => decoded_fixed(input@, N as int) is None,
        },
{
    let v = match bs58_decode(input) {
        Some(v) => v,
        None => {
            return Err("Failed to decode base58".to_owned());
        },
    };
    if v.len() != N {
        return Err("Decoded length does not fit".to_owned());
    }
    let mut a = [0u8; N];
    let mut i: usize = 0;
    while i < N
        invariant
            i <= N,
            v@.len() == N,
            a@.len() == N,
            forall|j: int| 0 <= j < i ==> a@[j] == v@[j],
        decreases N - i,
    {
        a[i] = v[i];
        i += 1;
    }
    proof {
        assert(a@ =~= v@);
    }
    Ok(a)
}

/// Extends text with readings of keys and block anchors.
pub trait PublicKeyStrExt {
    /// The 64 bytes this base58 text denotes.
    fn to_fixed_64_bytes(&self) -> Result<[u8; 64], String>;

    /// The 32 bytes this base58 text denotes.
    fn to_fixed_32_bytes(&self) -> Result<[u8; 32], String>;

    /// The curve-prefixed public key this text denotes.
    fn to_public_key(&self) -> Result<PublicKey, String>;

    /// The raw bytes of the curve-prefixed public key this text denotes.
    fn to_public_key_as_bytes(&self) -> Result<Vec<u8>, String>;

    /// The key bytes behind an `ed25519:` prefix.
    fn try_ed25519_into_bytes(&self) -> Result<[u8; 32], String>;

    /// The key bytes behind a `secp256k1:` prefix.
    fn try_secp256k1_into_bytes(&self) -> Result<[u8; 64], String>;

    /// The block anchor this base58 text denotes.
    fn to_block_hash(&self) -> Result<BlockHash, String>;
}

/// Whether key text denotes a public key: a curve prefix, then base58 text
/// of the curve's number of bytes.
pub open spec fn key_text_ok(s: Seq<char>) -> bool {
    ||| (has_prefix(s, "ed25519:"@) && decoded_fixed(s.skip(8), 32) is Some)
    ||| (has_prefix(s, "secp256k1:"@) && decoded_fixed(s.skip(10), 64) is Some)
}

/// The key that key text denotes, when `key_text_ok` holds.
pub open spec fn key_text_view(s: Seq<char>) -> PublicKeyView {
    if has_prefix(s, "ed25519:"@) {
        PublicKeyView::ED25519(decoded_fixed(s.skip(8), 32)->Some_0)
    } else {
        PublicKeyView::SECP256K1(decoded_fixed(s.skip(10), 64)->Some_0)
    }
}

impl PublicKeyStrExt for str {
    fn to_fixed_64_bytes(&self) -> (r: Result<[u8; 64], String>)
        ensures
            match r {
                Ok(a) => decoded_fixed(self@, 64) == Some(a@),
                Err(_) => decoded_fixed(self@, 64) is None,
            },
    {
        decode_base58_to_fixed_bytes::<64>(self)
    }

    fn to_fixed_32_bytes(&self) -> (r: Result<[u8; 32], String>)
        ensures
            match r {
                Ok(a) => decoded_fixed(self@, 32) == Some(a@),
                Err(_) => decoded_fixed(self@, 32) is None,
            },
    {
        decode_base58_to_fixed_bytes::<32>(self)
    }

    fn to_public_key(&self) -> (r: Result<PublicKey, String>)
        ensures
            match r {
                Ok(pk) => key_text_ok(self@) && pk@ == key_text_view(self@),
                Err(_) => !key_text_ok(self@),
            },
    {
        proof {
            reveal_strlit("ed25519:");
            reveal_strlit("secp256k1:");
            lemma_prefixes_disjoint(self@);
        }
        let n = self.unicode_len();
        if str_starts_with(self, "ed25519:", 8) {
            let rest = self.substring_char(8, n);
            proof {
                assert(rest@ =~= self@.skip(8));
            }
            match decode_base58_to_fixed_bytes::<32>(rest) {
                Ok(a) => Ok(PublicKey::ED25519(ED25519PublicKey(a))),
                Err(e) => Err(e),
            }
        } else if str_starts_with(self, "secp256k1:", 10) {
            let rest = self.substring_char(10, n);
            proof {
                assert(rest@ =~= self@.skip(10));
            }
            match decode_base58_to_fixed_bytes::<64>(rest) {
                Ok(a) => Ok(PublicKey::SECP256K1(Secp256K1PublicKey(a))),
                Err(e) => Err(e),
            }
        } else {
            Err("Unknown key type".to_owned())
        }
    }

    fn to_public_key_as_bytes(&self) -> (r: Result<Vec<u8>, String>)
        ensures
            match r {
                Ok(v) => key_text_ok(self@) && match key_text_view(self@) {
                    PublicKeyView::ED25519(b) => v@ == b,
                    PublicKeyView::SECP256K1(b) => v@ == b,
                },
                Err(_) => !key_text_ok(self@),
            },
    {
        proof {
            reveal_strlit("ed25519:");
            reveal_strlit("secp256k1:");
            lemma_prefixes_disjoint(self@);
        }
        let n = self.unicode_len();
        if str_starts_with(self, "ed25519:", 8) {
            let rest = self.substring_char(8, n);
            proof {
                assert(rest@ =~= self@.skip(8));
            }
            match bs58_decode(rest) {
                Some(v) => {
                    if v.len() == 32 {
                        Ok(v)
                    } else {
                        Err("ED25519 public key should be 32 bytes long".to_owned())
                    }
                },
                None => Err("Failed to decode base58".to_owned()),
            }
        } else if str_starts_with(self, "secp256k1:", 10) {
            let rest = self.substring_char(10, n);
            proof {
                assert(rest@ =~= self@.skip(10));
            }
            match bs58_decode(rest) {
                Some(v) => {
                    if v.len() == 64 {
                        Ok(v)
                    } else {
                        Err("SECP256K1 public key should be 64 bytes long".to_owned())
                    }
                },
                None => Err("Failed to decode base58".to_owned()),
            }
        } else {
            Err("Invalid key format".to_owned())
        }
    }

    fn try_ed25519_into_bytes(&self) -> (r: Result<[u8; 32], String>)
        ensures
            match r {
                Ok(a) => has_prefix(self@, "ed25519:"@) && decoded_fixed(self@.skip(8), 32)
                    == Some(a@),
                Err(_) => !(has_prefix(self@, "ed25519:"@) && decoded_fixed(self@.skip(8), 32)
                    is Some),
            },
    {
        proof {
            reveal_strlit("ed25519:");
        }
        let n = self.unicode_len();
        if str_starts_with(self, "ed25519:", 8) {
            let rest = self.substring_char(8, n);
            proof {
                assert(rest@ =~= self@.skip(8));
            }
            decode_base58_to_fixed_bytes::<32>(rest)
        } else {
            Err("Invalid ED25519 key format".to_owned())
        }
    }

    fn try_secp256k1_into_bytes(&self) -> (r: Result<[u8; 64], String>)
        ensures
            match r {
                Ok(a) => has_prefix(self@, "secp256k1:"@) && decoded_fixed(self@.skip(10), 64)
                    == Some(a@),
                Err(_) => !(has_prefix(self@, "secp256k1:"@) && decoded_fixed(self@.skip(10), 64)
                    is Some),
            },
    {
        proof {
            reveal_strlit("secp256k1:");
        }
        let n = self.unicode_len();
        if str_starts_with(self, "secp256k1:", 10) {
            let rest = self.substring_char(10, n);
            proof {
                assert(rest@ =~= self@.skip(10));
            }
            decode_base58_to_fixed_bytes::<64>(rest)
        } else {
            Err("Invalid SECP256K1 key format".to_owned())
        }
    }

    fn to_block_hash(&self) -> (r: Result<BlockHash, String>)
        ensures
            match r {
                Ok(b) => decoded_fixed(self@, 32) == Some(b.bytes()),
                Err(_) => decoded_fixed(self@, 32) is None,
            },
    {
        match decode_base58_to_fixed_bytes::<32>(self) {
            Ok(a) => Ok(BlockHash(a)),
            Err(e) => Err(e),
        }
    }
}

/// Extends text with readings of signatures.
pub trait SignatureStrExt {
    /// The curve-prefixed signature this text denotes.
    fn to_signature(&self) -> Result<Signature, String>;

    /// The raw bytes of the curve-prefixed signature this text denotes.
    fn to_signature_as_bytes(&self) -> Result<Vec<u8>, String>;

    /// The signature bytes behind an `ed25519:` prefix.
    fn try_ed25519_sig_into_bytes(&self) -> Result<[u8; 64], String>;

    /// The signature bytes behind a `secp256k1:` prefix.
    fn try_secp256k1_sig_into_bytes(&self) -> Result<[u8; 65], String>;

    /// The two-component signature behind an `ed25519:` prefix.
    fn to_ed25519_signature(&self) -> Result<ED25519Signature, String>;

    /// The one-piece signature behind a `secp256k1:` prefix.
    fn to_secp256k1_signature(&self) -> Result<Secp256K1Signature, String>;
}

/// Whether signature text denotes a signature: a curve prefix, then base58
/// text of the curve's number of signature bytes.
pub open spec fn sig_text_ok(s: Seq<char>) -> bool {
    ||| (has_prefix(s, "ed25519:"@) && decoded_fixed(s.skip(8), 64) is Some)
    ||| (has_prefix(s, "secp256k1:"@) && decoded_fixed(s.skip(10), 65) is Some)
}

/// The signature that signature text denotes, when `sig_text_ok` holds.
pub open spec fn sig_text_view(s: Seq<char>) -> SignatureView {
    if has_prefix(s, "ed25519:"@) {
        SignatureView::ED25519(decoded_fixed(s.skip(8), 64)->Some_0)
    } else {
        SignatureView::SECP256K1(decoded_fixed(s.skip(10), 65)->Some_0)
    }
}

impl SignatureStrExt for str {
    fn to_signature(&self) -> (r: Result<Signature, String>)
        ensures
            match r {
                Ok(sig) => sig_text_ok(self@) && sig@ == sig_text_view(self@),
                Err(_) => !sig_text_ok(self@),
            },
    {
        proof {
            reveal_strlit("ed25519:");
            reveal_strlit("secp256k1:");
            lemma_prefixes_disjoint(self@);
        }
        let n = self.unicode_len();
        if str_starts_with(self, "ed25519:", 8) {
            let rest = self.substring_char(8, n);
            proof {
                assert(rest@ =~= self@.skip(8));
            }
            match decode_base58_to_fixed_bytes::<64>(rest) {
                Ok(a) => {
                    let mut rpart = [0u8; 32];
                    let mut spart = [0u8; 32];
                    let mut i: usize = 0;
                    while i < 32
                        invariant
                            i <= 32,
                            rpart@.len() == 32,
                            spart@.len() == 32,
                            forall|j: int| 0 <= j < i ==> rpart@[j] == a@[j],
                            forall|j: int| 0 <= j < i ==> spart@[j] == a@[j + 32],
                        decreases 32 - i,
                    {
                        rpart[i] = a[i];
                        spart[i] = a[i + 32];
                        i += 1;
                    }
                    let sig = Signature::ED25519(ED25519Signature { r: rpart, s: spart });
                    proof {
                        assert(rpart@ + spart@ =~= a@);
                    }
                    Ok(sig)
                },
                Err(e) => Err(e),
            }
        } else if str_starts_with(self, "secp256k1:", 10) {
            let rest = self.substring_char(10, n);
            proof {
                assert(rest@ =~= self@.skip(10));
            }
            match decode_base58_to_fixed_bytes::<65>(rest) {
                Ok(a) => Ok(Signature::SECP256K1(Secp256K1Signature(a))),
                Err(e) => Err(e),
            }
        } else {
            Err("Unknown key type".to_owned())
        }
    }

    fn to_signature_as_bytes(&self) -> (r: Result<Vec<u8>, String>)
        ensures
            match r {
                Ok(v) => sig_text_ok(self@) && match sig_text_view(self@) {
                    SignatureView::ED25519(b) => v@ == b,
                    SignatureView::SECP256K1(b) => v@ == b,
                },
                Err(_) => !sig_text_ok(self@),
            },
    {
        proof {
            reveal_strlit("ed25519:");
            reveal_strlit("secp256k1:");
            lemma_prefixes_disjoint(self@);
        }
        let n = self.unicode_len();
        if str_starts_with(self, "ed25519:", 8) {
            let rest = self.substring_char(8, n);
            proof {
                assert(rest@ =~= self@.skip(8));
            }
            match bs58_decode(rest) {
                Some(v) => {
                    if v.len() == 64 {
                        Ok(v)
                    } else {
                        Err("ED25519 signature should be 64 bytes long".to_owned())
                    }
                },
                None => Err("Failed to decode base58".to_owned()),
            }
        } else if str_starts_with(self, "secp256k1:", 10) {
            let rest = self.substring_char(10, n);
            proof {
                assert(rest@ =~= self@.skip(10));
            }
            match bs58_decode(rest) {
                Some(v) => {
                    if v.len() == 65 {
                        Ok(v)
                    } else {
                        Err("SECP256K1 signature should be 65 bytes long".to_owned())
                    }
                },
                None => Err("Failed to decode base58".to_owned()),
            }
        } else {
            Err("Invalid key format".to_owned())
        }
    }

    fn try_ed25519_sig_into_bytes(&self) -> (r: Result<[u8; 64], String>)
        ensures
            match r {
                Ok(a) => has_prefix(self@, "ed25519:"@) && decoded_fixed(self@.skip(8), 64)
                    == Some(a@),
                Err(_) => !(has_prefix(self@, "ed25519:"@) && decoded_fixed(self@.skip(8), 64)
                    is Some),
            },
    {
        proof {
            reveal_strlit("ed25519:");
        }
        let n = self.unicode_len();
        if str_starts_with(self, "ed25519:", 8) {
            let rest = self.substring_char(8, n);
            proof {
                assert(rest@ =~= self@.skip(8));
            }
            decode_base58_to_fixed_bytes::<64>(rest)
        } else {
            Err("Invalid ED25519 key format".to_owned())
        }
    }

    fn try_secp256k1_sig_into_bytes(&self) -> (r: Result<[u8; 65], String>)
        ensures
            match r {
                Ok(a) => has_prefix(self@, "secp256k1:"@) && decoded_fixed(self@.skip(10), 65)
                    == Some(a@),
                Err(_) => !(has_prefix(self@, "secp256k1:"@) && decoded_fixed(self@.skip(10), 65)
                    is Some),
            },
    {
        proof {
            reveal_strlit("secp256k1:");
        }
        let n = self.unicode_len();
        if str_starts_with(self, "secp256k1:", 10) {
            let rest = self.substring_char(10, n);
            proof {
                assert(rest@ =~= self@.skip(10));
            }
            decode_base58_to_fixed_bytes::<65>(rest)
        } else {
            Err("Invalid SECP256K1 key format".to_owned())
        }
    }

    fn to_ed25519_signature(&self) -> (r: Result<ED25519Signature, String>)
        ensures
            match r {
                Ok(sig) => has_prefix(self@, "ed25519:"@) && decoded_fixed(self@.skip(8), 64)
                    == Some(sig.r@ + sig.s@),
                Err(_) => !(has_prefix(self@, "ed25519:"@) && decoded_fixed(self@.skip(8), 64)
                    is Some),
            },
    {
        match self.to_signature() {
            Ok(Signature::ED25519(sig)) => {
                proof {
                    lemma_prefixes_disjoint(self@);
                }
                Ok(sig)
            },
            Ok(Signature::SECP256K1(_)) => {
                proof {
                    lemma_prefixes_disjoint(self@);
                }
                Err("Invalid length for ED25519 signature".to_owned())
            },
            Err(e) => Err(e),
        }
    }

    fn to_secp256k1_signature(&self) -> (r: Result<Secp256K1Signature, String>)
        ensures
            match r {
                Ok(sig) => has_prefix(self@, "secp256k1:"@) && decoded_fixed(self@.skip(10), 65)
                    == Some(sig.0@),
                Err(_) => !(has_prefix(self@, "secp256k1:"@) && decoded_fixed(self@.skip(10), 65)
                    is Some),
            },
    {
        match self.to_signature() {
            Ok(Signature::SECP256K1(sig)) => {
                proof {
                    lemma_prefixes_disjoint(self@);
                }
                Ok(sig)
            },
            Ok(Signature::ED25519(_)) => {
                proof {
                    lemma_prefixes_disjoint(self@);
                }
                Err("Invalid length for SECP256K1 signature".to_owned())
            },
            Err(e) => Err(e),
        }
    }
}

} // verus!
