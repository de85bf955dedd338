use vstd::prelude::*;
use crate::error::Error;

verus! {

/// The closed set of object categories.
#[derive(Debug, Clone, Copy, PartialEq, Eq, Structural)]
pub enum ObjectKind {
    Blob,
    Tree,
    Commit,
    Tag,
}

/// The ASCII name of a kind, as it stands in an object's header.
pub open spec fn kind_name(kind: ObjectKind) -> Seq<u8> {
    match kind {
        ObjectKind::Blob => seq![98u8, 108u8, 111u8, 98u8],
        ObjectKind::Tree => seq![116u8, 114u8, 101u8, 101u8],
        ObjectKind::Commit => seq![99u8, 111u8, 109u8, 109u8, 105u8, 116u8],
        ObjectKind::Tag => seq![116u8, 97u8, 103u8],
    }
}

/// The decimal digits of `n`, most significant first, without leading zeros.
pub open spec fn decimal_digits(n: nat) -> Seq<u8>
    decreases n,
{
    if n < 10 {
        seq![(48 + n) as u8]
    } else {
        decimal_digits(n / 10).push((48 + n % 10) as u8)
    }
}

/// The header of an object: kind name, a space, the size in decimal, a NUL.
pub open spec fn header_bytes(kind: ObjectKind, size: nat) -> Seq<u8> {
    kind_name(kind).push(32u8) + decimal_digits(size).push(0u8)
}

/// The canonical encoding: the header followed by the raw payload.
pub open spec fn encoded_bytes(kind: ObjectKind, size: nat, data: Seq<u8>) -> Seq<u8> {
    header_bytes(kind, size) + data
}

impl ObjectKind {
    /// The kind's name as text.
    pub fn name(&self) -> (text: String)
        ensures
            *self == ObjectKind::Blob ==> text@ == "blob"@,
            *self == ObjectKind::Tree ==> text@ == "tree"@,
            *self == ObjectKind::Commit ==> text@ == "commit"@,
            *self == ObjectKind::Tag ==> text@ == "tag"@,
    {
        match self {
            ObjectKind::Blob => String::from_str("blob"),
            ObjectKind::Tree => String::from_str("tree"),
            ObjectKind::Commit => String::from_str("commit"),
            ObjectKind::Tag => String::from_str("tag"),
        }
    }
}

/// The kind that a name stands for.
pub open spec fn kind_named(name: Seq<char>) -> Option<ObjectKind> {
    if name == "blob"@ {
        Some(ObjectKind::Blob)
    } else if name == "tree"@ {
        Some(ObjectKind::Tree)
    } else if name == "commit"@ {
        Some(ObjectKind::Commit)
    } else if name == "tag"@ {
        Some(ObjectKind::Tag)
    } else {
        None
    }
}

/// Reads a kind from its name, as the store writes it.
pub fn kind_from_name(name: &str) -> (kind: Option<ObjectKind>)
    ensures
        kind == kind_named(name@),
{
    let name = String::from_str(name);
    if name == String::from_str("blob") {
        Some(ObjectKind::Blob)
    } else if name == String::from_str("tree") {
        Some(ObjectKind::Tree)
    } else if name == String::from_str("commit") {
        Some(ObjectKind::Commit)
    } else if name == String::from_str("tag") {
        Some(ObjectKind::Tag)
    } else {
        None
    }
}

fn push_kind_name(out: &mut Vec<u8>, kind: ObjectKind)
    ensures
        final(out)@ == old(out)@ + kind_name(kind),
{
    match kind {
        ObjectKind::Blob => {
            out.push(98u8);
            out.push(108u8);
            out.push(111u8);
            out.push(98u8);
        },
        ObjectKind::Tree => {
            out.push(116u8);
            out.push(114u8);
            out.push(101u8);
            out.push(101u8);
        },
        ObjectKind::Commit => {
            out.push(99u8);
            out.push(111u8);
            out.push(109u8);
            out.push(109u8);
            out.push(105u8);
            out.push(116u8);
        },
        ObjectKind::Tag => {
            out.push(116u8);
            out.push(97u8);
            out.push(103u8);
        },
    }
    assert(out@ =~= old(out)@ + kind_name(kind));
}

fn push_decimal(out: &mut Vec<u8>, n: usize)
    ensures
        final(out)@ == old(out)@ + decimal_digits(n as nat),
    decreases n,
{
    if n >= 10 {
        push_decimal(out, n / 10);
    }
    let digit: u8 = 48u8 + (n % 10) as u8;
    out.push(digit);
    assert(out@ =~= old(out)@ + decimal_digits(n as nat));
}

/// Encodes an object: `"<kind> <size>\0"` and then the payload.
pub fn encode_object(kind: &ObjectKind, size: usize, data: &[u8]) -> (out: Vec<u8>)
    ensures
        out@ == encoded_bytes(*kind, size as nat, data@),
{
    let mut out: Vec<u8> = Vec::new();
    push_kind_name(&mut out, *kind);
    out.push(32u8);
    push_decimal(&mut out, size);
    out.push(0u8);
    let ghost header = out@;
    assert(header =~= header_bytes(*kind, size as nat));
    let mut i: usize = 0;
    while i < data.len()
        invariant
            i <= data@.len(),
            out@ == header + data@.take(i as int),
        decreases data@.len() - i,
    {
        out.push(data[i]);
        assert(data@.take(i + 1) =~= data@.take(i as int).push(data@[i as int]));
        assert(out@ =~= header + data@.take(i + 1));
        i = i + 1;
    }
    assert(data@.take(i as int) =~= data@);
    out
}

/// The SHA-1 digest of a byte string, written as 40 lowercase hexadecimal
/// characters.
pub uninterp spec fn sha1_hex(data: Seq<u8>) -> Seq<char>;

/// The identifier of an object: the digest of its canonical encoding.
pub open spec fn object_digest(kind: ObjectKind, size: nat, data: Seq<u8>) -> Seq<char> {
    sha1_hex(encoded_bytes(kind, size, data))
}

/// Calls `sha1::Sha1::new`, `update` and `digest`, and renders the digest
/// with its `Display` impl. The contract only gives the result its name: the
/// same bytes always have the same digest.
#[verifier::external_body]
fn sha1_hexdigest(data: &Vec<u8>) -> (digest: String)
    ensures
        digest@ == sha1_hex(data@),
{
    let mut sha = sha1::Sha1::new();
    sha.update(data.as_slice());
    sha.digest().to_string()
}

/// Computes the identifier of an object from its kind, size and payload.
pub fn object_id(kind: &ObjectKind, size: usize, data: &[u8]) -> (id: String)
    ensures
        id@ == object_digest(*kind, size as nat, data@),
{
    let encoded = encode_object(kind, size, data);
    sha1_hexdigest(&encoded)
}

/// The integrity gate of a verified insert: accepts a computed digest only
/// if it is the expected one.
pub fn check_digest(expected: &String, actual: String) -> (checked: Result<String, Error>)
    ensures
        expected@ == actual@ ==> checked == Ok::<String, Error>(actual),
        expected@ != actual@ ==> checked == Err::<String, Error>(
            Error::HashMismatch { expected: *expected, actual },
        ),
{
    if actual == *expected {
        Ok(actual)
    } else {
        Err(Error::HashMismatch { expected: expected.clone(), actual })
    }
}

/// Encodes an object for a verified insert: the encoding is handed out
/// only if its digest is the expected identifier.
pub fn verified_encoding(kind: &ObjectKind, size: usize, data: &[u8], expected: &String) -> (encoded:
    Result<Vec<u8>, Error>)
    ensures
        match encoded {
            Ok(bytes) => object_digest(*kind, size as nat, data@) == expected@ && bytes@
                == encoded_bytes(*kind, size as nat, data@),
            Err(e) => object_digest(*kind, size as nat, data@) != expected@ && (match e {
                Error::HashMismatch { expected: wanted, actual } => wanted@ == expected@ && actual@
                    == object_digest(*kind, size as nat, data@),
                _ => false,
            }),
        },
{
    let bytes = encode_object(kind, size, data);
    match check_digest(expected, sha1_hexdigest(&bytes)) {
        Ok(_) => Ok(bytes),
        Err(e) => Err(e),
    }
}

/// The lowercase hexadecimal digit for a value below 16.
pub open spec fn hex_digit(value: int) -> char {
    if value == 0 {
        '0'
    } else if value == 1 {
        '1'
    } else if value == 2 {
        '2'
    } else if value == 3 {
        '3'
    } else if value == 4 {
        '4'
    } else if value == 5 {
        '5'
    } else if value == 6 {
        '6'
    } else if value == 7 {
        '7'
    } else if value == 8 {
        '8'
    } else if value == 9 {
        '9'
    } else if value == 10 {
        'a'
    } else if value == 11 {
        'b'
    } else if value == 12 {
        'c'
    } else if value == 13 {
        'd'
    } else if value == 14 {
        'e'
    } else {
        'f'
    }
}

/// Two lowercase hexadecimal digits for each byte, high digit first.
pub open spec fn hex_text(data: Seq<u8>) -> Seq<char> {
    Seq::new(
        2 * data.len(),
        |i: int|
            if i % 2 == 0 {
                hex_digit(data[i / 2] as int / 16)
            } else {
                hex_digit(data[i / 2] as int % 16)
            },
    )
}

/// Calls `hex::encode`, which writes each byte as two lowercase hexadecimal
/// digits, the high one first.
#[verifier::external_body]
pub(crate) fn hex_encode(data: &Vec<u8>) -> (text: String)
    ensures
        text@ == hex_text(data@),
{
    hex::encode(data)
}

} // verus!
