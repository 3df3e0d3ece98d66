//! Avro: the schema sits in the file header, so only the first bytes are read.
use vstd::prelude::*;
use crate::schema::{Schema, SchemaSource, SourceView, source_view};
use crate::text::copy_str;

verus! {

pub struct AvroInspector;

/// The Avro container magic `Obj\x01`.
pub open spec fn is_avro_magic(b: Seq<u8>) -> bool {
    b.len() >= 4 && b[0] == 79 && b[1] == 98 && b[2] == 106 && b[3] == 1
}

/// The single-object encoding marker `C3 01` at the start of at least 10 bytes.
pub open spec fn is_single_object(b: Seq<u8>) -> bool {
    b.len() >= 10 && b[0] == 0xC3 && b[1] == 0x01
}

impl AvroInspector {
    /// How many bytes of the file header are read.
    pub const HEADER_READ_LEN: u64 = 4096;

    /// The schema of a header in single-object encoding, which embeds only a
    /// fingerprint: no field is known.
    pub fn parse_single_object_schema(bytes: &[u8], path: &str) -> (s: Schema)
        ensures
            s.fields@.len() == 0,
            source_view(s.source) == (SourceView::Avro { path: path@ }),
    {
        Schema { fields: Vec::new(), source: SchemaSource::Avro { path: copy_str(path) } }
    }

    /// Read the schema from the first bytes of an Avro file. A header that is
    /// neither the container format nor single-object encoding is refused;
    /// decoding the container header is not implemented.
    pub fn inspect_header(header: &[u8], path: &str) -> (r: Result<Schema, String>)
        ensures
            !is_avro_magic(header@) && is_single_object(header@) ==> (r matches Ok(s) && s.fields@.len()
                == 0 && source_view(s.source) == (SourceView::Avro { path: path@ })),
            !is_avro_magic(header@) && !is_single_object(header@) ==> (r matches Err(m) && m@
                == "Not an Avro file (magic bytes mismatch)"@),
            is_avro_magic(header@) ==> (r matches Err(m) && m@
                == "TODO: implementare parsing header Avro"@),
    {
        let magic = header.len() >= 4 && header[0] == 79 && header[1] == 98 && header[2] == 106
            && header[3] == 1;
        if !magic {
            if header.len() >= 10 && header[0] == 0xC3 && header[1] == 0x01 {
                return Ok(Self::parse_single_object_schema(header, path));
            }
            return Err(copy_str("Not an Avro file (magic bytes mismatch)"));
        }
        Err(copy_str("TODO: implementare parsing header Avro"))
    }
}

} // verus!
