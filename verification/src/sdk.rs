use vstd::prelude::*;
use vstd::utf8::encode_utf8;

verus! {

#[verifier::external_type_specification]
#[verifier::external_body]
pub struct ExRsaPublicKey(rsa::RsaPublicKey);

/// Whether `rsa::RsaPublicKey::new` accepts the big-endian modulus `n` with
/// the public exponent `e`.
pub uninterp spec fn rsa_key_accepted(n: Seq<u8>, e: u32) -> bool;

/// The standard, padded base64 text of `bytes`.
pub uninterp spec fn base64_standard(bytes: Seq<u8>) -> Seq<char>;

/// `rsa::RsaPublicKey::new` on the big-endian modulus `n` and the exponent
/// `e`: a key, or an error where the crate's checks refuse them.
#[verifier::external_body]
fn rsa_public_key_new(n: &Vec<u8>, e: u32) -> (r: Option<rsa::RsaPublicKey>)
    ensures
        r is Some == rsa_key_accepted(n@, e),
{
    rsa::RsaPublicKey::new(rsa::BigUint::from_bytes_be(n.as_slice()), rsa::BigUint::from(e)).ok()
}

/// The value of big-endian bytes.
pub open spec fn be_value(s: Seq<u8>) -> nat
    decreases s.len(),
{
    if s.len() == 0 {
        0
    } else {
        be_value(s.drop_last()) * 256 + s.last() as nat
    }
}

/// The size in bytes of a big-endian modulus: its bytes after any leading
/// zero bytes.
pub open spec fn modulus_size(n: Seq<u8>) -> nat
    decreases n.len(),
{
    if n.len() == 0 {
        0
    } else if n[0] == 0 {
        modulus_size(n.drop_first())
    } else {
        n.len()
    }
}

/// The PKCS#1 v1.5 encryption block of `msg` with padding string `ps`:
/// `00 02 PS 00 msg`.
pub open spec fn pkcs1v15_padded(ps: Seq<u8>, msg: Seq<u8>) -> Seq<u8> {
    seq![0u8, 2u8] + ps + seq![0u8] + msg
}

/// Whether `block` is an RSA PKCS#1 v1.5 encryption of `msg` under the key
/// with modulus `n` (big-endian) and exponent `e`: as many bytes as the
/// modulus, holding `m^e mod n` for the padded message `m` of that size, whose
/// padding bytes are all non-zero.
pub open spec fn pkcs1v15_block_of(n: Seq<u8>, e: u32, msg: Seq<u8>, block: Seq<u8>) -> bool {
    &&& block.len() == modulus_size(n)
    &&& exists|ps: Seq<u8>|
        #![trigger pkcs1v15_padded(ps, msg)]
        pkcs1v15_padded(ps, msg).len() == modulus_size(n) && (forall|i: int|
            0 <= i < ps.len() ==> ps[i] != 0) && be_value(block) == vstd::arithmetic::power::pow(
            be_value(pkcs1v15_padded(ps, msg)) as int,
            e as nat,
        ) % (be_value(n) as int)
}

/// An RSA public key and the modulus (big-endian) and exponent it was made
/// from.
pub struct PublicKey {
    key: rsa::RsaPublicKey,
    modulus: Vec<u8>,
    exponent: u32,
}

impl PublicKey {
    /// The rsa crate accepted the modulus and exponent.
    #[verifier::type_invariant]
    spec fn accepted(self) -> bool {
        rsa_key_accepted(self.modulus@, self.exponent)
    }

    pub closed spec fn modulus(self) -> Seq<u8> {
        self.modulus@
    }

    pub closed spec fn exponent(self) -> u32 {
        self.exponent
    }
}

/// `rsa::traits::PaddingScheme::encrypt` with PKCS#1 v1.5 padding and the
/// thread generator, under the key `key` holds: for a key the crate
/// accepted, it refuses exactly a message longer than the modulus size less
/// 11 bytes; otherwise the block is `m^e mod n` for the message padded with
/// random non-zero bytes, as many bytes as the modulus. Which padding bytes
/// are drawn is chance, and is not stated.
#[verifier::external_body]
fn pkcs1v15_encrypt(key: &PublicKey, msg: &[u8]) -> (r: Option<Vec<u8>>)
    requires
        rsa_key_accepted(key.modulus(), key.exponent()),
    ensures
        r is Some <==> msg@.len() + 11 <= modulus_size(key.modulus()),
        r matches Some(b) ==> pkcs1v15_block_of(key.modulus(), key.exponent(), msg@, b@),
{
    rsa::traits::PaddingScheme::encrypt(
        rsa::pkcs1v15::Pkcs1v15Encrypt,
        &mut rand::thread_rng(),
        &key.key,
        msg,
    ).ok()
}

/// `base64::Engine::encode` with the standard padded engine: four chars for
/// every three bytes begun.
#[verifier::external_body]
fn base64_encode(bytes: &Vec<u8>) -> (r: String)
    ensures
        r@ == base64_standard(bytes@),
        r@.len() == (bytes@.len() + 2) / 3 * 4,
{
    base64::Engine::encode(&base64::engine::general_purpose::STANDARD, bytes.as_slice())
}

/// The public exponent of the server key.
pub const SERVER_EXPONENT: u32 = 65537;

/// The modulus of the server's RSA-1024 key, big-endian; the SDK decrypts the
/// login fields with its private half.
pub open spec fn server_modulus() -> Seq<u8> {
    seq![
        0x7cu8, 0x01, 0x67, 0x63, 0xf5, 0x2f, 0x97, 0xbd, 0x43, 0x7d, 0x8e, 0xa8, 0x56, 0x72, 0xa8, 0x2c,
        0xe3, 0x75, 0xb3, 0x5e, 0x14, 0x89, 0x19, 0x42, 0x10, 0x0e, 0x58, 0x03, 0x63, 0x86, 0xa8, 0xc3,
        0xf4, 0x20, 0x5b, 0xd2, 0xd7, 0x09, 0x63, 0xf9, 0xde, 0x76, 0x37, 0xdb, 0x59, 0x2c, 0x55, 0xcf,
        0x8d, 0x85, 0x65, 0x96, 0x1e, 0x70, 0x5c, 0x1e, 0x80, 0x53, 0xd7, 0xae, 0xc7, 0x6e, 0xe5, 0xa5,
        0xe7, 0x3a, 0x12, 0xdf, 0x29, 0x57, 0x69, 0x44, 0x60, 0xc1, 0x45, 0xa9, 0x56, 0xc0, 0x36, 0x0b,
        0xac, 0x0d, 0x93, 0x68, 0xc9, 0x2a, 0x1e, 0x6b, 0xa8, 0x63, 0x59, 0x7c, 0xba, 0x35, 0x71, 0x28,
        0x2f, 0x33, 0xeb, 0x94, 0x3f, 0xbd, 0xd0, 0x7e, 0x32, 0x0e, 0xaa, 0x54, 0x67, 0x98, 0xa2, 0xdb,
        0x96, 0xbc, 0xb4, 0xb2, 0x27, 0xd9, 0x14, 0xc4, 0xc1, 0xb3, 0x77, 0x8e, 0x7d, 0x8d, 0x82, 0x01,
    ]
}

/// The server modulus as bytes.
pub fn server_modulus_bytes() -> (r: Vec<u8>)
    ensures
        r@ == server_modulus(),
{
    let v: Vec<u8> = vec![
        0x7c, 0x01, 0x67, 0x63, 0xf5, 0x2f, 0x97, 0xbd, 0x43, 0x7d, 0x8e, 0xa8, 0x56, 0x72, 0xa8, 0x2c,
        0xe3, 0x75, 0xb3, 0x5e, 0x14, 0x89, 0x19, 0x42, 0x10, 0x0e, 0x58, 0x03, 0x63, 0x86, 0xa8, 0xc3,
        0xf4, 0x20, 0x5b, 0xd2, 0xd7, 0x09, 0x63, 0xf9, 0xde, 0x76, 0x37, 0xdb, 0x59, 0x2c, 0x55, 0xcf,
        0x8d, 0x85, 0x65, 0x96, 0x1e, 0x70, 0x5c, 0x1e, 0x80, 0x53, 0xd7, 0xae, 0xc7, 0x6e, 0xe5, 0xa5,
        0xe7, 0x3a, 0x12, 0xdf, 0x29, 0x57, 0x69, 0x44, 0x60, 0xc1, 0x45, 0xa9, 0x56, 0xc0, 0x36, 0x0b,
        0xac, 0x0d, 0x93, 0x68, 0xc9, 0x2a, 0x1e, 0x6b, 0xa8, 0x63, 0x59, 0x7c, 0xba, 0x35, 0x71, 0x28,
        0x2f, 0x33, 0xeb, 0x94, 0x3f, 0xbd, 0xd0, 0x7e, 0x32, 0x0e, 0xaa, 0x54, 0x67, 0x98, 0xa2, 0xdb,
        0x96, 0xbc, 0xb4, 0xb2, 0x27, 0xd9, 0x14, 0xc4, 0xc1, 0xb3, 0x77, 0x8e, 0x7d, 0x8d, 0x82, 0x01,
    ];
    assert(v@ =~= server_modulus());
    v
}

/// Why registering through the SDK failed.
#[derive(PartialEq, Eq, Structural, Debug, Clone, Copy)]
pub enum SdkError {
    /// The RSA crate refused the server key.
    InvalidKey,
    /// The RSA crate refused to encrypt a field.
    EncryptFailed,
    /// The encrypted block was not 128 bytes long; its length.
    BlockSize(usize),
    /// The SDK answered with an HTTP error.
    HttpStatus,
}

/// The server's public key.
pub fn public_key() -> (r: Result<PublicKey, SdkError>)
    ensures
        r is Ok == rsa_key_accepted(server_modulus(), SERVER_EXPONENT),
        r is Err ==> r == Err::<PublicKey, SdkError>(SdkError::InvalidKey),
        r matches Ok(k) ==> k.modulus() == server_modulus() && k.exponent() == SERVER_EXPONENT
            && modulus_size(k.modulus()) == 128,
{
    let n = server_modulus_bytes();
    match rsa_public_key_new(&n, SERVER_EXPONENT) {
        Some(k) => {
            assert(modulus_size(n@) == 128) by {
                assert(n@[0] == 0x7cu8);
            }
            Ok(PublicKey { key: k, modulus: n, exponent: SERVER_EXPONENT })
        },
        None => Err(SdkError::InvalidKey),
    }
}

/// What the SDK gets for an encrypted block: its base64 text, when the block
/// has the 128 bytes of the server key.
pub open spec fn spec_encode_block(block: Seq<u8>) -> Result<Seq<char>, SdkError> {
    if block.len() != 128 {
        Err(SdkError::BlockSize(block.len() as usize))
    } else {
        Ok(base64_standard(block))
    }
}

/// Encodes an encrypted block for the SDK.
pub fn encode_block(block: &Vec<u8>) -> (r: Result<String, SdkError>)
    ensures
        match r {
            Ok(s) => spec_encode_block(block@) == Ok::<Seq<char>, SdkError>(s@) && s@.len() == 172,
            Err(e) => spec_encode_block(block@) == Err::<Seq<char>, SdkError>(e),
        },
{
    if block.len() != 128 {
        return Err(SdkError::BlockSize(block.len()));
    }
    Ok(base64_encode(block))
}

/// Encrypts a login field (its UTF-8 bytes) for the SDK with `key`, as
/// the SDK expects it: the base64 text of a 128-byte PKCS#1 v1.5 block.
/// Refused where the field is too long for the key, and where the key's
/// blocks are not 128 bytes.
pub fn encrypt_field(key: &PublicKey, value: &str) -> (r: Result<String, SdkError>)
    ensures
        ({
            let msg = encode_utf8(value@);
            let k = modulus_size(key.modulus());
            &&& msg.len() + 11 > k ==> r == Err::<String, SdkError>(SdkError::EncryptFailed)
            &&& msg.len() + 11 <= k && k != 128 ==> r == Err::<String, SdkError>(
                SdkError::BlockSize(k as usize),
            )
            &&& msg.len() + 11 <= k && k == 128 ==> r is Ok
            &&& r matches Ok(s) ==> s@.len() == 172 && exists|block: Seq<u8>|
                #[trigger] base64_standard(block) == s@ && pkcs1v15_block_of(
                    key.modulus(),
                    key.exponent(),
                    msg,
                    block,
                )
        }),
{
    proof {
        use_type_invariant(key);
    }
    let bytes = value.as_bytes();
    match pkcs1v15_encrypt(key, bytes) {
        None => Err(SdkError::EncryptFailed),
        Some(block) => {
            match encode_block(&block) {
                Ok(s) => {
                    assert(base64_standard(block@) == s@);
                    Ok(s)
                },
                Err(e) => Err(e),
            }
        },
    }
}

/// What a registration gets from the SDK's answer: an error for an HTTP
/// error, else whether the answer's `retcode` (-1 where it has none) is 0.
pub fn registration_outcome(http_success: bool, retcode: Option<i64>) -> (r: Result<bool, SdkError>)
    ensures
        !http_success ==> r == Err::<bool, SdkError>(SdkError::HttpStatus),
        http_success ==> r == Ok::<bool, SdkError>(retcode == Some(0i64)),
{
    if !http_success {
        return Err(SdkError::HttpStatus);
    }
    let code = match retcode {
        Some(c) => c,
        None => -1,
    };
    Ok(code == 0)
}

} // verus!
