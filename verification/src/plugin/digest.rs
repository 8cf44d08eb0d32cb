//! The digest that identifies the exact bytes of a plugin package.

use sha2::Digest;
use std::str::FromStr;
use vstd::prelude::*;

use crate::bytes::append_bytes;
use crate::plugin::error::PluginPackageError;
use crate::text::chars_of;

verus! {

/// The SHA-256 digest of a message.
pub uninterp spec fn sha256(message: Seq<u8>) -> Seq<u8>;

/// `sha2::Sha256::digest` hashes the whole message in one step. The contract
/// names its result as a function of the message alone; how it is computed, and
/// that no two messages are known to share a digest, is left unsaid.
#[verifier::external_body]
fn sha256_digest(message: &[u8]) -> (digest: [u8; 32])
    ensures
        digest@ == sha256(message@),
{
    sha2::Sha256::digest(message).into()
}

/// The eight bytes of a length, most significant first.
#[verifier::opaque]
pub open spec fn length_bytes(length: nat) -> Seq<u8> {
    seq![
        (length / 0x100000000000000) as u8,
        ((length / 0x1000000000000) % 256) as u8,
        ((length / 0x10000000000) % 256) as u8,
        ((length / 0x100000000) % 256) as u8,
        ((length / 0x1000000) % 256) as u8,
        ((length / 0x10000) % 256) as u8,
        ((length / 0x100) % 256) as u8,
        (length % 256) as u8,
    ]
}

/// `cterm-plugin-package-v1` and a zero byte.
pub open spec fn digest_domain() -> Seq<u8> {
    seq![
        99u8, 116, 101, 114, 109, 45, 112, 108, 117, 103, 105, 110, 45, 112, 97, 99, 107, 97, 103,
        101, 45, 118, 49, 0,
    ]
}

/// The message whose digest identifies a package: a domain separator, then each
/// part behind its length.
pub open spec fn package_message(manifest: Seq<u8>, module: Seq<u8>) -> Seq<u8> {
    digest_domain() + length_bytes(manifest.len()) + manifest + length_bytes(module.len()) + module
}

/// A digit of lower-case hexadecimal.
pub open spec fn hex_digit(value: nat) -> char {
    if value < 10 {
        ('0' as u32 + value) as char
    } else {
        ('a' as u32 + (value - 10)) as char
    }
}

/// Bytes in lower-case hexadecimal, two digits each.
pub open spec fn hex(bytes: Seq<u8>) -> Seq<char> {
    Seq::new(
        2 * bytes.len(),
        |i: int|
            if i % 2 == 0 {
                hex_digit(bytes[i / 2] as nat / 16)
            } else {
                hex_digit(bytes[i / 2] as nat % 16)
            },
    )
}

pub open spec fn is_hex_digit(character: char) -> bool {
    '0' <= character <= '9' || 'a' <= character <= 'f'
}

pub open spec fn digest_text(bytes: Seq<u8>) -> Seq<char> {
    "sha256:"@ + hex(bytes)
}

/// The one accepted spelling of a digest: `sha256:` and 64 lower-case
/// hexadecimal digits.
pub open spec fn is_digest_text(text: Seq<char>) -> bool {
    &&& "sha256:"@.is_prefix_of(text)
    &&& text.len() == "sha256:"@.len() + 64
    &&& forall|i: int| "sha256:"@.len() <= i < text.len() ==> is_hex_digit(#[trigger] text[i])
}

fn length_byte_vec(length: u64) -> (bytes: Vec<u8>)
    ensures
        bytes@ == length_bytes(length as nat),
{
    proof {
        reveal(length_bytes);
    }
    vec![
        (length / 0x100000000000000) as u8,
        ((length / 0x1000000000000) % 256) as u8,
        ((length / 0x10000000000) % 256) as u8,
        ((length / 0x100000000) % 256) as u8,
        ((length / 0x1000000) % 256) as u8,
        ((length / 0x10000) % 256) as u8,
        ((length / 0x100) % 256) as u8,
        (length % 256) as u8,
    ]
}

/// The digest of a package with these manifest and module bytes.
pub fn bundle_digest(manifest: &[u8], module: &[u8]) -> (digest: BundleDigest)
    ensures
        digest@ == sha256(package_message(manifest@, module@)),
{
    let mut message: Vec<u8> = vec![
        99u8, 116, 101, 114, 109, 45, 112, 108, 117, 103, 105, 110, 45, 112, 97, 99, 107, 97, 103,
        101, 45, 118, 49, 0,
    ];
    proof {
        assert(message@ =~= digest_domain());
    }
    let manifest_length = length_byte_vec(manifest.len() as u64);
    append_bytes(&mut message, manifest_length.as_slice());
    append_bytes(&mut message, manifest);
    let module_length = length_byte_vec(module.len() as u64);
    append_bytes(&mut message, module_length.as_slice());
    append_bytes(&mut message, module);
    BundleDigest { bytes: sha256_digest(message.as_slice()) }
}

/// The digest of a plugin package.
#[derive(Debug, Clone, Copy, PartialEq, Eq, PartialOrd, Ord, Hash)]
pub struct BundleDigest {
    bytes: [u8; 32],
}

impl View for BundleDigest {
    type V = Seq<u8>;

    closed spec fn view(&self) -> Seq<u8> {
        self.bytes@
    }
}

fn hex_char(value: u8) -> (character: char)
    requires
        value < 16,
    ensures
        character == hex_digit(value as nat),
        is_hex_digit(character),
{
    if value < 10 {
        (value + 48u8) as char
    } else {
        (value + 87u8) as char
    }
}

spec fn hex_value(character: char) -> nat {
    if character <= '9' {
        (character as nat - '0' as nat) as nat
    } else {
        (character as nat - 'a' as nat + 10) as nat
    }
}

fn hex_value_of(character: char) -> (value: u8)
    requires
        is_hex_digit(character),
    ensures
        value == hex_value(character),
        value < 16,
        hex_digit(value as nat) == character,
{
    if character <= '9' {
        character as u8 - 48u8
    } else {
        character as u8 - 87u8
    }
}

impl BundleDigest {
    /// A digest has 32 bytes.
    pub proof fn law_digest_has_full_length(&self)
        ensures
            self@.len() == 32,
    {
    }

    pub fn as_bytes(&self) -> (bytes: &[u8; 32])
        ensures
            bytes@ == self@,
    {
        &self.bytes
    }

    /// Whether two digests are the same.
    pub fn same(&self, other: &BundleDigest) -> (same: bool)
        ensures
            same == (self@ == other@),
    {
        let mut index: usize = 0;
        while index < 32
            invariant
                index <= 32,
                forall|i: int| 0 <= i < index ==> self@[i] == other@[i],
            decreases 32 - index,
        {
            if self.bytes[index] != other.bytes[index] {
                return false;
            }
            index += 1;
        }
        proof {
            assert(self@ =~= other@);
        }
        true
    }

    /// The digest as text: `sha256:` and its bytes in hexadecimal.
    pub fn to_string(&self) -> (text: String)
        ensures
            text@ == digest_text(self@),
    {
        let mut text = "sha256:".to_owned();
        let mut index: usize = 0;
        proof {
            assert(hex(self@.take(0)) =~= Seq::<char>::empty());
            assert("sha256:"@ + hex(self@.take(0)) =~= "sha256:"@);
        }
        while index < 32
            invariant
                index <= 32,
                text@ == "sha256:"@ + hex(self@.take(index as int)),
            decreases 32 - index,
        {
            let byte: u8 = self.bytes[index];
            text.push(hex_char(byte / 16));
            text.push(hex_char(byte % 16));
            proof {
                let shorter = hex(self@.take(index as int));
                let longer = hex(self@.take(index + 1));
                assert(longer =~= shorter.push(hex_digit(byte as nat / 16)).push(
                    hex_digit(byte as nat % 16),
                ));
                assert("sha256:"@ + longer =~= ("sha256:"@ + shorter).push(
                    hex_digit(byte as nat / 16),
                ).push(hex_digit(byte as nat % 16)));
            }
            index += 1;
        }
        proof {
            assert(self@.take(32) =~= self@);
        }
        text
    }

    /// Reads a digest from its text; any other spelling is refused with the text
    /// itself.
    pub fn from_text(value: &str) -> (result: Result<BundleDigest, PluginPackageError>)
        ensures
            match result {
                Ok(digest) => is_digest_text(value@) && value@ == digest_text(digest@),
                Err(error) => !is_digest_text(value@)
                    && (error matches PluginPackageError::InvalidDigest(text) && text@ == value@),
            },
    {
        proof {
            reveal_strlit("sha256:");
        }
        let chars = chars_of(value);
        let prefixed = chars.len() == 71 && chars[0] == 's' && chars[1] == 'h' && chars[2] == 'a'
            && chars[3] == '2' && chars[4] == '5' && chars[5] == '6' && chars[6] == ':';
        if !prefixed {
            proof {
                if "sha256:"@.is_prefix_of(value@) {
                    assert(forall|i: int| 0 <= i < 7 ==> value@[i] == "sha256:"@[i]);
                }
            }
            return Err(PluginPackageError::InvalidDigest(value.to_owned()));
        }
        let mut index: usize = 0;
        let mut bytes: [u8; 32] = [0;32];
        while index < 32
            invariant
                index <= 32,
                chars@ == value@,
                chars@.len() == 71,
                "sha256:"@.len() == 7,
                forall|i: int| 7 <= i < 7 + 2 * index ==> is_hex_digit(#[trigger] chars@[i]),
                forall|i: int|
                    0 <= i < index ==> hex_digit(#[trigger] bytes@[i] as nat / 16) == chars@[7 + 2
                        * i] && hex_digit(bytes@[i] as nat % 16) == chars@[8 + 2 * i],
            decreases 32 - index,
        {
            let high = chars[7 + 2 * index];
            let low = chars[8 + 2 * index];
            if !is_hex_char(high) || !is_hex_char(low) {
                return Err(PluginPackageError::InvalidDigest(value.to_owned()));
            }
            let high_value: u8 = hex_value_of(high);
            let low_value: u8 = hex_value_of(low);
            bytes[index] = high_value * 16 + low_value;
            index += 1;
        }
        proof {
            assert("sha256:"@ =~= value@.take(7));
            assert("sha256:"@ =~= value@.subrange(0, 7));
            assert forall|i: int| 0 <= i < 64 implies #[trigger] hex(bytes@)[i] == value@[7 + i] by {
                assert(bytes@[i / 2] == bytes@[i / 2]);
            }
            assert(value@ =~= digest_text(bytes@));
        }
        Ok(BundleDigest { bytes })
    }
}

fn is_hex_char(character: char) -> (hex: bool)
    ensures
        hex == is_hex_digit(character),
{
    ('0' <= character && character <= '9') || ('a' <= character && character <= 'f')
}

impl FromStr for BundleDigest {
    type Err = PluginPackageError;

    /// Reads a digest from its text.
    fn from_str(value: &str) -> (result: Result<Self, Self::Err>)
        ensures
            match result {
                Ok(digest) => is_digest_text(value@) && value@ == digest_text(digest@),
                Err(error) => !is_digest_text(value@)
                    && (error matches PluginPackageError::InvalidDigest(text) && text@ == value@),
            },
    {
        BundleDigest::from_text(value)
    }
}

/// The text of a digest is accepted as a digest, and no other digest has it.
pub proof fn law_digest_text_round_trip(bytes: Seq<u8>, other: Seq<u8>)
    requires
        bytes.len() == 32,
        other.len() == 32,
    ensures
        is_digest_text(digest_text(bytes)),
        digest_text(bytes) == digest_text(other) ==> bytes == other,
{
    reveal_strlit("sha256:");
    let text = digest_text(bytes);
    assert("sha256:"@ =~= text.subrange(0, 7));
    assert forall|i: int| 7 <= i < text.len() implies is_hex_digit(#[trigger] text[i]) by {
        assert(text[i] == hex(bytes)[i - 7]);
    }
    if text == digest_text(other) {
        assert forall|i: int| 0 <= i < 32 implies bytes[i] == other[i] by {
            assert(text[7 + 2 * i] == hex(bytes)[2 * i]);
            assert(text[8 + 2 * i] == hex(bytes)[2 * i + 1]);
            assert(digest_text(other)[7 + 2 * i] == hex(other)[2 * i]);
            assert(digest_text(other)[8 + 2 * i] == hex(other)[2 * i + 1]);
            lemma_hex_digit_injective(bytes[i] as nat / 16, other[i] as nat / 16);
            lemma_hex_digit_injective(bytes[i] as nat % 16, other[i] as nat % 16);
        }
        assert(bytes =~= other);
    }
}

proof fn lemma_hex_digit_injective(left: nat, right: nat)
    requires
        left < 16,
        right < 16,
        hex_digit(left) == hex_digit(right),
    ensures
        left == right,
{
}

proof fn lemma_length_bytes_injective(left: nat, right: nat)
    requires
        left <= u64::MAX,
        right <= u64::MAX,
        length_bytes(left) == length_bytes(right),
    ensures
        left == right,
{
    reveal(length_bytes);
    let l = length_bytes(left);
    let r = length_bytes(right);
    assert(l[0] == r[0] && l[1] == r[1] && l[2] == r[2] && l[3] == r[3] && l[4] == r[4] && l[5]
        == r[5] && l[6] == r[6] && l[7] == r[7]);
    lemma_length_from_bytes(left as u64, right as u64);
}

proof fn lemma_length_bytes_len(length: nat)
    ensures
        length_bytes(length).len() == 8,
{
    reveal(length_bytes);
}

proof fn lemma_length_from_bytes(left: u64, right: u64)
    by (bit_vector)
    requires
        left / 0x100000000000000 == right / 0x100000000000000,
        (left / 0x1000000000000) % 256 == (right / 0x1000000000000) % 256,
        (left / 0x10000000000) % 256 == (right / 0x10000000000) % 256,
        (left / 0x100000000) % 256 == (right / 0x100000000) % 256,
        (left / 0x1000000) % 256 == (right / 0x1000000) % 256,
        (left / 0x10000) % 256 == (right / 0x10000) % 256,
        (left / 0x100) % 256 == (right / 0x100) % 256,
        left % 256 == right % 256,
    ensures
        left == right,
{
}

/// Any change to the manifest or to the module changes the message whose digest
/// identifies the package: no bytes can move from one part to the other.
pub proof fn law_package_message_is_injective(
    manifest: Seq<u8>,
    module: Seq<u8>,
    other_manifest: Seq<u8>,
    other_module: Seq<u8>,
)
    requires
        manifest.len() <= u64::MAX,
        module.len() <= u64::MAX,
        other_manifest.len() <= u64::MAX,
        other_module.len() <= u64::MAX,
        package_message(manifest, module) == package_message(other_manifest, other_module),
    ensures
        manifest == other_manifest,
        module == other_module,
{
    lemma_length_bytes_len(manifest.len());
    lemma_length_bytes_len(module.len());
    lemma_length_bytes_len(other_manifest.len());
    lemma_length_bytes_len(other_module.len());
    lemma_package_parts(
        digest_domain(),
        length_bytes(manifest.len()),
        manifest,
        length_bytes(module.len()),
        module,
    );
    lemma_package_parts(
        digest_domain(),
        length_bytes(other_manifest.len()),
        other_manifest,
        length_bytes(other_module.len()),
        other_module,
    );
    lemma_length_bytes_injective(manifest.len(), other_manifest.len());
    lemma_length_bytes_injective(module.len(), other_module.len());
}

proof fn lemma_package_parts(
    domain: Seq<u8>,
    manifest_length: Seq<u8>,
    manifest: Seq<u8>,
    module_length: Seq<u8>,
    module: Seq<u8>,
)
    requires
        domain.len() == 24,
        manifest_length.len() == 8,
        module_length.len() == 8,
    ensures
        ({
            let message = domain + manifest_length + manifest + module_length + module;
            let end = 32 + manifest.len() as int;
            &&& message.subrange(24, 32) == manifest_length
            &&& message.subrange(32, end) == manifest
            &&& message.subrange(end, end + 8) == module_length
            &&& message.skip(end + 8) == module
        }),
{
    let message = domain + manifest_length + manifest + module_length + module;
    let end = 32 + manifest.len() as int;
    assert(message.subrange(24, 32) =~= manifest_length);
    assert(message.subrange(32, end) =~= manifest);
    assert(message.subrange(end, end + 8) =~= module_length);
    assert(message.skip(end + 8) =~= module);
}

/// A length is written in eight bytes, the most significant first: each byte is worth 256
/// times the next.
pub proof fn law_lengths_are_big_endian(length: u64)
    ensures
        ({
            let bytes = length_bytes(length as nat);
            &&& bytes.len() == 8
            &&& length == 256 * (256 * (256 * (256 * (256 * (256 * (256 * bytes[0] + bytes[1])
                + bytes[2]) + bytes[3]) + bytes[4]) + bytes[5]) + bytes[6]) + bytes[7]
        }),
{
    reveal(length_bytes);
    let a: int = length as int / 256;
    let b: int = a / 256;
    let c: int = b / 256;
    let d: int = c / 256;
    let e: int = d / 256;
    let f: int = e / 256;
    let g: int = f / 256;
    assert(length as nat / 0x100 == a);
    assert(length as nat / 0x10000 == b);
    assert(length as nat / 0x1000000 == c);
    assert(length as nat / 0x100000000 == d);
    assert(length as nat / 0x10000000000 == e);
    assert(length as nat / 0x1000000000000 == f);
    assert(length as nat / 0x100000000000000 == g);
    assert(g < 256);
}

/// What is hashed for a package is its mark, the length of the manifest and the manifest,
/// the length of the module and the module, in this order.
pub proof fn law_packages_are_hashed_part_by_part(manifest: Seq<u8>, module: Seq<u8>)
    ensures
        ({
            let message = package_message(manifest, module);
            let split = 32 + manifest.len() as int;
            &&& message.take(24) == digest_domain()
            &&& message.subrange(24, 32) == length_bytes(manifest.len())
            &&& message.subrange(32, split) == manifest
            &&& message.subrange(split, split + 8) == length_bytes(module.len())
            &&& message.skip(split + 8) == module
        }),
{
    reveal(length_bytes);
    let message = package_message(manifest, module);
    let split = 32 + manifest.len() as int;
    assert(message.take(24) =~= digest_domain());
    assert(message.subrange(24, 32) =~= length_bytes(manifest.len()));
    assert(message.subrange(32, split) =~= manifest);
    assert(message.subrange(split, split + 8) =~= length_bytes(module.len()));
    assert(message.skip(split + 8) =~= module);
}

/// The mark of a package is its name in ASCII and a zero byte.
pub proof fn law_package_mark_is_its_name(index: int)
    requires
        0 <= index < 23,
    ensures
        digest_domain().len() == 24,
        digest_domain()[index] == "cterm-plugin-package-v1"@[index] as u8,
        "cterm-plugin-package-v1"@.len() == 23,
        digest_domain()[23] == 0,
{
    reveal_strlit("cterm-plugin-package-v1");
}

/// A byte is written with its higher digit first, in digits from zero to nine and from a
/// to f.
pub proof fn law_bytes_are_written_high_digit_first(bytes: Seq<u8>, index: int, value: nat)
    requires
        0 <= index < bytes.len(),
        value < 16,
    ensures
        hex(bytes).len() == 2 * bytes.len(),
        hex(bytes)[2 * index] == hex_digit(bytes[index] as nat / 16),
        hex(bytes)[2 * index + 1] == hex_digit(bytes[index] as nat % 16),
        value < 10 ==> hex_digit(value) as u32 == 48 + value,
        value >= 10 ==> hex_digit(value) as u32 == 97 + (value - 10),
        is_hex_digit(hex_digit(value)),
{
    assert((2 * index) % 2 == 0 && (2 * index) / 2 == index);
    assert((2 * index + 1) % 2 == 1 && (2 * index + 1) / 2 == index);
}

/// Only the lower-case spelling behind `sha256:`, in its full length, is a digest.
pub proof fn law_digests_have_one_spelling(text: Seq<char>, index: int)
    ensures
        is_digest_text(text) ==> text.len() == 71 && text[0] == 's' && text[6] == ':',
        is_digest_text(text) && 7 <= index < 71 ==> 48 <= text[index] as u32 <= 57 || 97
            <= text[index] as u32 <= 102,
{
    reveal_strlit("sha256:");
    if is_digest_text(text) {
        assert(text.subrange(0, 7)[0] == text[0]);
        assert(text.subrange(0, 7)[6] == text[6]);
        if 7 <= index < 71 {
            assert(is_hex_digit(text[index]));
        }
    }
}

} // verus!
