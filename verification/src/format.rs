//! Recognising the format of a data file.
use vstd::prelude::*;
use crate::text::{ends_with, has_suffix};

verus! {

#[derive(Debug, Clone, Copy, PartialEq, Eq, Structural)]
pub enum FileFormat {
    Parquet,
    Avro,
    Orc,
    Unknown,
}

/// `b` begins with the bytes `magic`.
pub open spec fn starts_with_bytes(b: Seq<u8>, magic: Seq<u8>) -> bool {
    magic.len() <= b.len() && b.subrange(0, magic.len() as int) == magic
}

/// The format of a file from its name and its first bytes: the `.parquet`
/// extension or the `PAR1` magic, then `.avro` or `Obj\x01`, then `.orc` or `ORC`.
pub open spec fn detect_format_spec(path: Seq<char>, first: Seq<u8>) -> FileFormat {
    if has_suffix(path, ".parquet"@) || starts_with_bytes(first, seq![80u8, 65, 82, 49]) {
        FileFormat::Parquet
    } else if has_suffix(path, ".avro"@) || starts_with_bytes(first, seq![79u8, 98, 106, 1]) {
        FileFormat::Avro
    } else if has_suffix(path, ".orc"@) || starts_with_bytes(first, seq![79u8, 82, 67]) {
        FileFormat::Orc
    } else {
        FileFormat::Unknown
    }
}

fn bytes_start_with(b: &[u8], magic: &[u8]) -> (r: bool)
    ensures
        r == starts_with_bytes(b@, magic@),
{
    if magic.len() > b.len() {
        return false;
    }
    let mut i: usize = 0;
    while i < magic.len()
        invariant
            magic.len() <= b.len(),
            i <= magic.len(),
            forall|j: int| 0 <= j < i ==> b@[j] == magic@[j],
        decreases magic.len() - i,
    {
        if b[i] != magic[i] {
            assert(b@.subrange(0, magic@.len() as int)[i as int] != magic@[i as int]);
            return false;
        }
        i += 1;
    }
    assert(b@.subrange(0, magic@.len() as int) =~= magic@);
    true
}

/// Detect the format of a file from its extension and/or magic bytes.
pub fn detect_format(path: &str, first_bytes: &[u8]) -> (f: FileFormat)
    ensures
        f == detect_format_spec(path@, first_bytes@),
{
    let par1: [u8; 4] = [80, 65, 82, 49];
    let obj1: [u8; 4] = [79, 98, 106, 1];
    let orc: [u8; 3] = [79, 82, 67];
    assert(par1@ =~= seq![80u8, 65, 82, 49]);
    assert(obj1@ =~= seq![79u8, 98, 106, 1]);
    assert(orc@ =~= seq![79u8, 82, 67]);
    if ends_with(path, ".parquet") || bytes_start_with(first_bytes, &par1) {
        return FileFormat::Parquet;
    }
    if ends_with(path, ".avro") || bytes_start_with(first_bytes, &obj1) {
        return FileFormat::Avro;
    }
    if ends_with(path, ".orc") || bytes_start_with(first_bytes, &orc) {
        return FileFormat::Orc;
    }
    FileFormat::Unknown
}

} // verus!
