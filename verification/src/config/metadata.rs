//! The metadata of a configuration file that a save has to keep.

use vstd::prelude::*;

verus! {

pub const ATTRIBUTE_HIDDEN: u32 = 0x2;

pub const ATTRIBUTE_SYSTEM: u32 = 0x4;

pub const ATTRIBUTE_ARCHIVE: u32 = 0x20;

pub const ATTRIBUTE_NORMAL: u32 = 0x80;

pub const ATTRIBUTE_NOT_CONTENT_INDEXED: u32 = 0x2000;

/// Largest security descriptor in bytes.
pub const MAX_SECURITY_BYTES: u32 = 262144;

/// The attributes that a save can keep.
pub open spec fn supported_attributes() -> u32 {
    ATTRIBUTE_ARCHIVE | ATTRIBUTE_HIDDEN | ATTRIBUTE_NORMAL | ATTRIBUTE_NOT_CONTENT_INDEXED
        | ATTRIBUTE_SYSTEM
}

/// Why the metadata of a file stops a save.
#[derive(Debug, Clone, Copy, PartialEq, Eq, Structural)]
pub enum MetadataError {
    /// The file is read-only, encrypted, compressed or has another special attribute.
    Attributes,
    /// The file has further streams.
    Streams,
    /// The stream of the file has another type.
    StreamType,
    /// Owner, permissions or integrity label of the new file differ.
    Security,
    /// The metadata changed in the meantime.
    Changed,
}

/// Whether a save can keep the attributes.
pub fn require_supported_attributes(attributes: u32) -> (r: bool)
    ensures
        r == (attributes & !supported_attributes() == 0),
{
    let supported: u32 = ATTRIBUTE_ARCHIVE | ATTRIBUTE_HIDDEN | ATTRIBUTE_NORMAL
        | ATTRIBUTE_NOT_CONTENT_INDEXED | ATTRIBUTE_SYSTEM;
    attributes & !supported == 0
}

/// The name of the only stream of a plain file, `::$DATA`, in UTF-16.
pub open spec fn plain_stream() -> Seq<u16> {
    seq![58, 58, 36, 68, 65, 84, 65]
}

/// Why the first stream entry is not that of a plain file.
pub open spec fn stream_error(next: u32, length: u32, name: Seq<u16>) -> Option<MetadataError> {
    if next != 0 || length != 14 {
        Some(MetadataError::Streams)
    } else if name.take(7) != plain_stream() {
        Some(MetadataError::StreamType)
    } else {
        None
    }
}

/// Checks the first stream entry: the offset of the next entry, the length of the name in bytes
/// and the buffer that holds the name, which is read only where it is the one entry and its name
/// has the length of that of a plain file.
pub fn require_single_stream(next: u32, length: u32, name: &[u16]) -> (r: Option<MetadataError>)
    requires
        next == 0 && length == 14 ==> name@.len() >= 7,
    ensures
        r == stream_error(next, length, name@),
{
    if next != 0 || length != 14 {
        return Some(MetadataError::Streams);
    }
    assert(name@.take(7).len() == 7);
    if name[0] == 58 && name[1] == 58 && name[2] == 36 && name[3] == 68 && name[4] == 65 && name[5]
        == 84 && name[6] == 65 {
        assert(name@.take(7) =~= plain_stream());
        None
    } else {
        assert(plain_stream().len() == 7);
        assert(name@.take(7) != plain_stream()) by {
            let taken = name@.take(7);
            assert(taken[0] == name@[0] && taken[1] == name@[1] && taken[2] == name@[2]);
            assert(taken[3] == name@[3] && taken[4] == name@[4] && taken[5] == name@[5]);
            assert(taken[6] == name@[6]);
        }
        Some(MetadataError::StreamType)
    }
}

/// The times and attributes of a file.
#[derive(Debug, Clone, Copy, PartialEq, Eq, Structural)]
pub struct BasicInformation {
    pub created: i64,
    pub accessed: i64,
    pub attributes: u32,
}

/// The metadata of the original file.
#[derive(Debug)]
pub struct PreservedMetadata {
    pub basic: BasicInformation,
    pub security: Vec<u32>,
}

fn same_words(a: &[u32], b: &[u32]) -> (r: bool)
    ensures
        r == (a@ == b@),
{
    if a.len() != b.len() {
        return false;
    }
    for i in 0..a.len()
        invariant
            a@.len() == b@.len(),
            forall|k: int| 0 <= k < i ==> #[trigger] a@[k] == b@[k],
    {
        if a[i] != b[i] {
            return false;
        }
    }
    assert(a@ =~= b@);
    true
}

/// Why the metadata cannot be kept.
pub open spec fn capture_error(
    original: u32,
    candidate: u32,
    streams: Option<MetadataError>,
    security: Seq<u32>,
    candidate_security: Seq<u32>,
) -> Option<MetadataError> {
    if original & !supported_attributes() != 0 || candidate & !supported_attributes() != 0 {
        Some(MetadataError::Attributes)
    } else if streams is Some {
        streams
    } else if security != candidate_security {
        Some(MetadataError::Security)
    } else {
        None
    }
}

impl PreservedMetadata {
    /// Takes the metadata of the original before its contents are copied. The new file must have
    /// the same security descriptor already.
    pub fn capture(
        basic: BasicInformation,
        candidate_attributes: u32,
        streams: Option<MetadataError>,
        security: Vec<u32>,
        candidate_security: &[u32],
    ) -> (r: Result<PreservedMetadata, MetadataError>)
        ensures
            match r {
                Ok(metadata) => {
                    &&& capture_error(
                        basic.attributes,
                        candidate_attributes,
                        streams,
                        security@,
                        candidate_security@,
                    ) is None
                    &&& metadata.basic == basic
                    &&& metadata.security@ == security@
                },
                Err(error) => capture_error(
                    basic.attributes,
                    candidate_attributes,
                    streams,
                    security@,
                    candidate_security@,
                ) == Some(error),
            },
    {
        if !require_supported_attributes(basic.attributes) || !require_supported_attributes(
            candidate_attributes,
        ) {
            return Err(MetadataError::Attributes);
        }
        match streams {
            Some(error) => {
                return Err(error);
            },
            None => {},
        }
        if !same_words(security.as_slice(), candidate_security) {
            return Err(MetadataError::Security);
        }
        Ok(PreservedMetadata { basic, security })
    }

    /// Why the metadata is not applied: it changed since it was taken, or streams were added.
    pub open spec fn apply_error(
        self,
        attributes: u32,
        security: Seq<u32>,
        candidate_security: Seq<u32>,
        streams: Option<MetadataError>,
    ) -> Option<MetadataError> {
        if security != self.security@ || candidate_security != self.security@ || attributes
            != self.basic.attributes {
            Some(MetadataError::Changed)
        } else {
            streams
        }
    }

    /// The times and attributes to give to the new file. The time of the last change is not
    /// among them: it is that of this save.
    pub fn apply(
        &self,
        attributes: u32,
        security: &[u32],
        candidate_security: &[u32],
        streams: Option<MetadataError>,
    ) -> (r: Result<BasicInformation, MetadataError>)
        ensures
            r == (match self.apply_error(attributes, security@, candidate_security@, streams) {
                Some(error) => Err::<BasicInformation, MetadataError>(error),
                None => Ok(self.basic),
            }),
    {
        if !same_words(security, self.security.as_slice()) || !same_words(
            candidate_security,
            self.security.as_slice(),
        ) || attributes != self.basic.attributes {
            return Err(MetadataError::Changed);
        }
        match streams {
            Some(error) => Err(error),
            None => Ok(self.basic),
        }
    }
}

/// The number of words that hold a security descriptor of the reported size; none where the size
/// is zero or over the limit.
pub fn security_words(needed: u32) -> (r: Option<u32>)
    ensures
        r == (if 0 < needed <= MAX_SECURITY_BYTES {
            Some(((needed + 3) / 4) as u32)
        } else {
            None
        }),
{
    if needed == 0 || needed > MAX_SECURITY_BYTES {
        None
    } else {
        Some((needed + 3) / 4)
    }
}

/// The number of words that a security descriptor fills; none where the reported size is zero or
/// over the capacity, which is in bytes.
pub fn filled_words(needed: u32, capacity: u32) -> (r: Option<u32>)
    requires
        capacity <= MAX_SECURITY_BYTES + 3,
    ensures
        r == (if 0 < needed <= capacity {
            Some(((needed + 3) / 4) as u32)
        } else {
            None
        }),
{
    if needed == 0 || needed > capacity {
        None
    } else {
        Some((needed + 3) / 4)
    }
}

/// A read-only, encrypted or compressed file is never saved: each of these attributes alone
/// stops the save, whatever else is set.
pub proof fn special_attributes_stop_a_save(attributes: u32)
    requires
        attributes & 0x1 != 0 || attributes & 0x4000 != 0 || attributes & 0x800 != 0,
    ensures
        attributes & !supported_attributes() != 0,
{
    let supported = supported_attributes();
    assert(supported == 0x20A6u32) by {
        assert(0x20u32 | 0x2u32 | 0x80u32 | 0x2000u32 | 0x4u32 == 0x20A6u32) by (bit_vector);
    }
    assert(attributes & !0x20A6u32 != 0) by (bit_vector)
        requires
            attributes & 0x1 != 0 || attributes & 0x4000 != 0 || attributes & 0x800 != 0,
    ;
}

/// The attributes that a save keeps are hidden, system, archive, normal and not indexed; any other
/// bit stops it.
pub proof fn kept_attributes(attributes: u32)
    ensures
        attributes & !supported_attributes() == 0 <==> attributes & 0xffff_df59 == 0,
{
    assert(supported_attributes() == 0x20a6u32) by {
        assert(0x20u32 | 0x2u32 | 0x80u32 | 0x2000u32 | 0x4u32 == 0x20a6u32) by (bit_vector);
    }
    assert(!0x20a6u32 == 0xffff_df59u32) by (bit_vector);
}

/// A plain file has one stream, whose name is `::$DATA`.
pub proof fn plain_files_have_one_stream(next: u32, length: u32, name: Seq<u16>)
    ensures
        stream_error(next, length, name) is None <==> {
            &&& next == 0
            &&& length == 2 * 7
            &&& name.take(7) == seq![
                ':' as u16,
                ':' as u16,
                '$' as u16,
                'D' as u16,
                'A' as u16,
                'T' as u16,
                'A' as u16,
            ]
        },
        stream_error(next, length, name) == Some(MetadataError::Streams) <==> next != 0 || length
            != 14,
        stream_error(next, length, name) is Some ==> stream_error(next, length, name)->0
            == MetadataError::Streams || stream_error(next, length, name)->0
            == MetadataError::StreamType,
{
    assert(plain_stream() =~= seq![
        ':' as u16,
        ':' as u16,
        '$' as u16,
        'D' as u16,
        'A' as u16,
        'T' as u16,
        'A' as u16,
    ]);
}

/// The metadata is taken where both files have only attributes that can be kept, the original has
/// no further stream, and both have the same security descriptor. Of several reasons against it
/// the first in this order is named.
pub proof fn metadata_is_taken(
    original: u32,
    candidate: u32,
    streams: Option<MetadataError>,
    security: Seq<u32>,
    candidate_security: Seq<u32>,
)
    ensures
        ({
            let error = capture_error(original, candidate, streams, security, candidate_security);
            let special = original & 0xffff_df59 != 0 || candidate & 0xffff_df59 != 0;
            &&& error is None <==> !special && streams is None && security == candidate_security
            &&& special ==> error == Some(MetadataError::Attributes)
            &&& !special && streams is Some ==> error == streams
            &&& !special && streams is None && security != candidate_security ==> error == Some(
                MetadataError::Security,
            )
        }),
{
    kept_attributes(original);
    kept_attributes(candidate);
}

/// The metadata is given to the new file where it is still that of the original, and the new file
/// has its security descriptor.
pub proof fn metadata_is_given(
    metadata: PreservedMetadata,
    attributes: u32,
    security: Seq<u32>,
    candidate_security: Seq<u32>,
    streams: Option<MetadataError>,
)
    ensures
        ({
            let error = metadata.apply_error(attributes, security, candidate_security, streams);
            let same = security == metadata.security@ && candidate_security == metadata.security@
                && attributes == metadata.basic.attributes;
            &&& !same ==> error == Some(MetadataError::Changed)
            &&& same ==> error == streams
        }),
{
}

}
