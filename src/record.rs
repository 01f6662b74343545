use vstd::prelude::*;

use crate::error::Error;
use crate::layout::{le16, le32, le64, read_u16, read_u32, read_u64};

verus! {

/// The header of a file record segment of the MFT.
#[derive(Clone, Copy, Debug, PartialEq, Eq, Structural)]
pub struct RecordHeader {
    pub signature: u32,
    pub update_sequence_array_offset: u16,
    pub update_sequence_array_size: u16,
    pub log_sequence_number: u64,
    pub sequence_number: u16,
    pub reference_count: u16,
    pub first_attribute_offset: u16,
    pub flags: u16,
    pub real_size: u32,
    pub allocated_size: u32,
    pub base_file_record_segment: u64,
    pub next_attribute_instance: u16,
}

/// The size of a file record segment header.
pub const RECORD_HEADER_SIZE: usize = 42;

/// The signature of a file record segment, `FILE`, read as a little-endian `u32`.
pub const FILE_SIGNATURE: u32 = 0x454c_4946;

/// The header of every attribute.
#[derive(Clone, Copy, Debug, PartialEq, Eq, Structural)]
pub struct AttributeHeader {
    pub type_code: u32,
    pub record_length: u32,
    pub form_code: u8,
    pub name_length: u8,
    pub name_offset: u16,
    pub flags: u16,
    pub instance: u16,
}

/// The size of an attribute header.
pub const ATTRIBUTE_HEADER_SIZE: usize = 16;

/// What follows the header of a resident attribute.
#[derive(Clone, Copy, Debug, PartialEq, Eq, Structural)]
pub struct ResidentHeader {
    pub value_length: u32,
    pub value_offset: u16,
    pub indexed: u8,
}

/// The size of the resident part of an attribute header.
pub const RESIDENT_HEADER_SIZE: usize = 8;

/// What follows the header of a non-resident attribute.
#[derive(Clone, Copy, Debug, PartialEq, Eq, Structural)]
pub struct NonResidentHeader {
    pub lowest_vcn: u64,
    pub highest_vcn: u64,
    pub mapping_pair_offset: u16,
    pub allocated_length: u64,
    pub file_size: u64,
    pub valid_data_length: u64,
    pub total_allocated: u64,
}

/// The size of the non-resident part of an attribute header.
pub const NON_RESIDENT_HEADER_SIZE: usize = 56;

/// The value of a `STANDARD_INFORMATION` attribute.
#[derive(Clone, Copy, Debug, PartialEq, Eq, Structural)]
pub struct StandardInformation {
    pub creation_time: u64,
    pub modified_time: u64,
    pub change_time: u64,
    pub access_time: u64,
    pub permissions: u32,
    pub max_version: u32,
    pub version: u32,
    pub class_id: u32,
    pub owner_id: u32,
    pub security_id: u32,
    pub quota_charged: u64,
    pub update_sequence_number: u64,
}

/// The size of a `STANDARD_INFORMATION` value.
pub const STANDARD_INFORMATION_SIZE: usize = 72;

/// The fixed part of a `FILE_NAME` value; the name itself follows it.
#[derive(Clone, Copy, Debug, PartialEq, Eq, Structural)]
pub struct FileNameInfo {
    pub parent_directory: u64,
    pub creation_time: u64,
    pub modified_time: u64,
    pub change_time: u64,
    pub access_time: u64,
    pub allocated_size: u64,
    pub real_size: u64,
    pub permissions: u32,
    pub reparse_tag: u32,
    pub name_length: u8,
    pub name_type: u8,
}

/// The size of the fixed part of a `FILE_NAME` value.
pub const FILE_NAME_SIZE: usize = 66;

/// The type code that ends the attributes of a record.
pub const END_TYPE: u32 = 0xffff_ffff;

/// The type code of `STANDARD_INFORMATION`.
pub const STANDARD_INFORMATION_TYPE: u32 = 0x10;

/// The type code of `FILE_NAME`.
pub const FILE_NAME_TYPE: u32 = 0x30;

/// The form code of an attribute whose value is in the record.
pub const RESIDENT_FORM: u8 = 0;

/// The form code of an attribute whose value is elsewhere on the volume.
pub const NONRESIDENT_FORM: u8 = 1;

/// The file record segment header whose first byte is at `i`.
pub open spec fn record_header_at(b: Seq<u8>, i: int) -> RecordHeader {
    RecordHeader {
        signature: le32(b, i) as u32,
        update_sequence_array_offset: le16(b, i + 4) as u16,
        update_sequence_array_size: le16(b, i + 6) as u16,
        log_sequence_number: le64(b, i + 8) as u64,
        sequence_number: le16(b, i + 16) as u16,
        reference_count: le16(b, i + 18) as u16,
        first_attribute_offset: le16(b, i + 20) as u16,
        flags: le16(b, i + 22) as u16,
        real_size: le32(b, i + 24) as u32,
        allocated_size: le32(b, i + 28) as u32,
        base_file_record_segment: le64(b, i + 32) as u64,
        next_attribute_instance: le16(b, i + 40) as u16,
    }
}

/// The attribute header whose first byte is at `i`.
pub open spec fn attribute_header_at(b: Seq<u8>, i: int) -> AttributeHeader {
    AttributeHeader {
        type_code: le32(b, i) as u32,
        record_length: le32(b, i + 4) as u32,
        form_code: b[i + 8],
        name_length: b[i + 9],
        name_offset: le16(b, i + 10) as u16,
        flags: le16(b, i + 12) as u16,
        instance: le16(b, i + 14) as u16,
    }
}

/// The resident part of an attribute header, whose first byte is at `i`.
pub open spec fn resident_header_at(b: Seq<u8>, i: int) -> ResidentHeader {
    ResidentHeader {
        value_length: le32(b, i) as u32,
        value_offset: le16(b, i + 4) as u16,
        indexed: b[i + 6],
    }
}

/// The non-resident part of an attribute header, whose first byte is at `i`.
pub open spec fn non_resident_header_at(b: Seq<u8>, i: int) -> NonResidentHeader {
    NonResidentHeader {
        lowest_vcn: le64(b, i) as u64,
        highest_vcn: le64(b, i + 8) as u64,
        mapping_pair_offset: le16(b, i + 16) as u16,
        allocated_length: le64(b, i + 24) as u64,
        file_size: le64(b, i + 32) as u64,
        valid_data_length: le64(b, i + 40) as u64,
        total_allocated: le64(b, i + 48) as u64,
    }
}

/// The `STANDARD_INFORMATION` value whose first byte is at `i`.
pub open spec fn standard_information_at(b: Seq<u8>, i: int) -> StandardInformation {
    StandardInformation {
        creation_time: le64(b, i) as u64,
        modified_time: le64(b, i + 8) as u64,
        change_time: le64(b, i + 16) as u64,
        access_time: le64(b, i + 24) as u64,
        permissions: le32(b, i + 32) as u32,
        max_version: le32(b, i + 36) as u32,
        version: le32(b, i + 40) as u32,
        class_id: le32(b, i + 44) as u32,
        owner_id: le32(b, i + 48) as u32,
        security_id: le32(b, i + 52) as u32,
        quota_charged: le64(b, i + 56) as u64,
        update_sequence_number: le64(b, i + 64) as u64,
    }
}

/// The fixed part of the `FILE_NAME` value whose first byte is at `i`.
pub open spec fn file_name_info_at(b: Seq<u8>, i: int) -> FileNameInfo {
    FileNameInfo {
        parent_directory: le64(b, i) as u64,
        creation_time: le64(b, i + 8) as u64,
        modified_time: le64(b, i + 16) as u64,
        change_time: le64(b, i + 24) as u64,
        access_time: le64(b, i + 32) as u64,
        allocated_size: le64(b, i + 40) as u64,
        real_size: le64(b, i + 48) as u64,
        permissions: le32(b, i + 56) as u32,
        reparse_tag: le32(b, i + 60) as u32,
        name_length: b[i + 64],
        name_type: b[i + 65],
    }
}

impl RecordHeader {
    /// Decodes the header whose first byte is at `i`.
    pub fn decode(b: &[u8], i: usize) -> (r: Self)
        requires
            i + RECORD_HEADER_SIZE <= b.len(),
        ensures
            r == record_header_at(b@, i as int),
    {
        RecordHeader {
            signature: read_u32(b, i),
            update_sequence_array_offset: read_u16(b, i + 4),
            update_sequence_array_size: read_u16(b, i + 6),
            log_sequence_number: read_u64(b, i + 8),
            sequence_number: read_u16(b, i + 16),
            reference_count: read_u16(b, i + 18),
            first_attribute_offset: read_u16(b, i + 20),
            flags: read_u16(b, i + 22),
            real_size: read_u32(b, i + 24),
            allocated_size: read_u32(b, i + 28),
            base_file_record_segment: read_u64(b, i + 32),
            next_attribute_instance: read_u16(b, i + 40),
        }
    }
}

impl AttributeHeader {
    /// Decodes the header whose first byte is at `i`.
    pub fn decode(b: &[u8], i: usize) -> (r: Self)
        requires
            i + ATTRIBUTE_HEADER_SIZE <= b.len(),
        ensures
            r == attribute_header_at(b@, i as int),
    {
        AttributeHeader {
            type_code: read_u32(b, i),
            record_length: read_u32(b, i + 4),
            form_code: b[i + 8],
            name_length: b[i + 9],
            name_offset: read_u16(b, i + 10),
            flags: read_u16(b, i + 12),
            instance: read_u16(b, i + 14),
        }
    }
}

impl ResidentHeader {
    /// Decodes the resident part whose first byte is at `i`.
    pub fn decode(b: &[u8], i: usize) -> (r: Self)
        requires
            i + RESIDENT_HEADER_SIZE <= b.len(),
        ensures
            r == resident_header_at(b@, i as int),
    {
        ResidentHeader {
            value_length: read_u32(b, i),
            value_offset: read_u16(b, i + 4),
            indexed: b[i + 6],
        }
    }
}

impl NonResidentHeader {
    /// Decodes the non-resident part whose first byte is at `i`.
    pub fn decode(b: &[u8], i: usize) -> (r: Self)
        requires
            i + NON_RESIDENT_HEADER_SIZE <= b.len(),
        ensures
            r == non_resident_header_at(b@, i as int),
    {
        NonResidentHeader {
            lowest_vcn: read_u64(b, i),
            highest_vcn: read_u64(b, i + 8),
            mapping_pair_offset: read_u16(b, i + 16),
            allocated_length: read_u64(b, i + 24),
            file_size: read_u64(b, i + 32),
            valid_data_length: read_u64(b, i + 40),
            total_allocated: read_u64(b, i + 48),
        }
    }
}

impl StandardInformation {
    /// Decodes the value whose first byte is at `i`.
    pub fn decode(b: &[u8], i: usize) -> (r: Self)
        requires
            i + STANDARD_INFORMATION_SIZE <= b.len(),
        ensures
            r == standard_information_at(b@, i as int),
    {
        StandardInformation {
            creation_time: read_u64(b, i),
            modified_time: read_u64(b, i + 8),
            change_time: read_u64(b, i + 16),
            access_time: read_u64(b, i + 24),
            permissions: read_u32(b, i + 32),
            max_version: read_u32(b, i + 36),
            version: read_u32(b, i + 40),
            class_id: read_u32(b, i + 44),
            owner_id: read_u32(b, i + 48),
            security_id: read_u32(b, i + 52),
            quota_charged: read_u64(b, i + 56),
            update_sequence_number: read_u64(b, i + 64),
        }
    }
}

impl FileNameInfo {
    /// Decodes the fixed part whose first byte is at `i`.
    pub fn decode(b: &[u8], i: usize) -> (r: Self)
        requires
            i + FILE_NAME_SIZE <= b.len(),
        ensures
            r == file_name_info_at(b@, i as int),
    {
        FileNameInfo {
            parent_directory: read_u64(b, i),
            creation_time: read_u64(b, i + 8),
            modified_time: read_u64(b, i + 16),
            change_time: read_u64(b, i + 24),
            access_time: read_u64(b, i + 32),
            allocated_size: read_u64(b, i + 40),
            real_size: read_u64(b, i + 48),
            permissions: read_u32(b, i + 56),
            reparse_tag: read_u32(b, i + 60),
            name_length: b[i + 64],
            name_type: b[i + 65],
        }
    }
}

/// What `String::from_utf16` makes of a sequence of UTF-16 code units: the text, or `None`
/// where the units are not valid UTF-16.
pub uninterp spec fn utf16_text(units: Seq<u16>) -> Option<Seq<char>>;

/// Relies on `String::from_utf16`, which decodes UTF-16 code units and fails on an unpaired
/// surrogate; its result depends on the units alone.
#[verifier::external_body]
fn decode_utf16(units: &[u16]) -> (r: Option<String>)
    ensures
        match utf16_text(units@) {
            Some(t) => r is Some && r->0@ == t,
            None => r is None,
        },
{
    String::from_utf16(units).ok()
}

/// The `n` little-endian UTF-16 code units that start at `i`.
pub open spec fn units_at(b: Seq<u8>, i: int, n: nat) -> Seq<u16> {
    Seq::new(n, |k: int| le16(b, i + 2 * k) as u16)
}

/// One attribute of a file record, as decoded.
#[derive(Debug)]
pub struct Attribute {
    pub header: AttributeHeader,
    pub resident: Option<ResidentHeader>,
    pub non_resident: Option<NonResidentHeader>,
    pub standard: Option<StandardInformation>,
    pub file_name: Option<FileNameInfo>,
    pub name: Option<String>,
}

/// The model of an attribute: its decoded parts, with a name as its characters.
pub struct AttributeView {
    pub header: AttributeHeader,
    pub resident: Option<ResidentHeader>,
    pub non_resident: Option<NonResidentHeader>,
    pub standard: Option<StandardInformation>,
    pub file_name: Option<FileNameInfo>,
    pub name: Option<Seq<char>>,
}

impl View for Attribute {
    type V = AttributeView;

    open spec fn view(&self) -> AttributeView {
        AttributeView {
            header: self.header,
            resident: self.resident,
            non_resident: self.non_resident,
            standard: self.standard,
            file_name: self.file_name,
            name: match self.name {
                Some(s) => Some(s@),
                None => None,
            },
        }
    }
}

/// A bare attribute: its header and nothing decoded beyond it.
pub open spec fn bare(h: AttributeHeader) -> AttributeView {
    AttributeView {
        header: h,
        resident: None,
        non_resident: None,
        standard: None,
        file_name: None,
        name: None,
    }
}

/// The value of a resident attribute whose header is `h`, at `data` in `rec`, where it
/// fits: a standard-information record or a file name is decoded, any other type is kept
/// undecoded.
pub open spec fn resident_value(rec: Seq<u8>, h: AttributeHeader, t: ResidentHeader, data: int) -> Result<
    AttributeView,
    Error,
> {
    let base = AttributeView { resident: Some(t), ..bare(h) };
    if h.type_code == STANDARD_INFORMATION_TYPE {
        if t.value_length < STANDARD_INFORMATION_SIZE || data + STANDARD_INFORMATION_SIZE
            > rec.len() {
            Err(Error::InvalidData)
        } else {
            Ok(AttributeView { standard: Some(standard_information_at(rec, data)), ..base })
        }
    } else if h.type_code == FILE_NAME_TYPE {
        if t.value_length < FILE_NAME_SIZE || data + FILE_NAME_SIZE > rec.len() {
            Err(Error::InvalidData)
        } else {
            let f = file_name_info_at(rec, data);
            let n = f.name_length as nat;
            if 2 * n > t.value_length - FILE_NAME_SIZE || data + FILE_NAME_SIZE + 2 * n
                > rec.len() {
                Err(Error::InvalidData)
            } else {
                match utf16_text(units_at(rec, data + FILE_NAME_SIZE, n)) {
                    Some(text) => Ok(
                        AttributeView { file_name: Some(f), name: Some(text), ..base },
                    ),
                    None => Err(Error::InvalidData),
                }
            }
        }
    } else {
        Ok(base)
    }
}

/// The attribute at `pos` of the record bytes `rec`: `None` for the end marker, or an
/// error where the attribute is malformed or does not fit in the record.
pub open spec fn attribute_at(rec: Seq<u8>, pos: int) -> Result<Option<AttributeView>, Error> {
    if pos + 4 > rec.len() {
        Err(Error::InvalidData)
    } else if le32(rec, pos) == END_TYPE {
        Ok(None)
    } else if pos + ATTRIBUTE_HEADER_SIZE > rec.len() {
        Err(Error::InvalidData)
    } else {
        let h = attribute_header_at(rec, pos);
        if h.record_length == 0 || pos + h.record_length > rec.len() {
            Err(Error::InvalidData)
        } else if h.form_code == RESIDENT_FORM {
            if pos + ATTRIBUTE_HEADER_SIZE + RESIDENT_HEADER_SIZE > rec.len() {
                Err(Error::InvalidData)
            } else {
                let t = resident_header_at(rec, pos + ATTRIBUTE_HEADER_SIZE);
                match resident_value(rec, h, t, pos + t.value_offset) {
                    Ok(a) => Ok(Some(a)),
                    Err(e) => Err(e),
                }
            }
        } else if h.form_code == NONRESIDENT_FORM {
            if pos + ATTRIBUTE_HEADER_SIZE + NON_RESIDENT_HEADER_SIZE > rec.len() {
                Err(Error::InvalidData)
            } else {
                Ok(
                    Some(
                        AttributeView {
                            non_resident: Some(
                                non_resident_header_at(rec, pos + ATTRIBUTE_HEADER_SIZE),
                            ),
                            ..bare(h)
                        },
                    ),
                )
            }
        } else {
            Err(Error::InvalidData)
        }
    }
}

/// The attributes of the record bytes `rec` from `pos` on: one after another, each
/// `record_length` bytes long, up to the end marker or the end of the bytes.
pub open spec fn walk(rec: Seq<u8>, pos: nat) -> Result<Seq<AttributeView>, Error>
    decreases rec.len() - pos,
{
    if pos >= rec.len() {
        Ok(Seq::empty())
    } else {
        match attribute_at(rec, pos as int) {
            Err(e) => Err(e),
            Ok(None) => Ok(Seq::empty()),
            Ok(Some(a)) => if a.header.record_length > 0 {
                match walk(rec, (pos + a.header.record_length) as nat) {
                    Ok(rest) => Ok(seq![a] + rest),
                    Err(e) => Err(e),
                }
            } else {
                Err(Error::InvalidData)
            },
        }
    }
}

/// The models of a sequence of attributes.
pub open spec fn views(s: Seq<Attribute>) -> Seq<AttributeView> {
    s.map_values(|a: Attribute| a@)
}

/// The attributes `done` followed by what `rest` holds, or the error of `rest`.
pub open spec fn after(done: Seq<AttributeView>, rest: Result<Seq<AttributeView>, Error>) -> Result<
    Seq<AttributeView>,
    Error,
> {
    match rest {
        Ok(s) => Ok(done + s),
        Err(e) => Err(e),
    }
}

/// Decodes the `n` little-endian UTF-16 code units that start at `i`.
fn read_units(rec: &[u8], i: usize, n: usize) -> (r: Vec<u16>)
    requires
        i + 2 * n <= rec.len(),
    ensures
        r@ == units_at(rec@, i as int, n as nat),
{
    let mut units: Vec<u16> = Vec::with_capacity(n);
    let mut k: usize = 0;
    while k < n
        invariant
            k <= n,
            i + 2 * n <= rec.len(),
            units@ =~= units_at(rec@, i as int, k as nat),
        decreases n - k,
    {
        units.push(read_u16(rec, i + 2 * k));
        k = k + 1;
    }
    units
}

/// Decodes the value of a resident attribute whose header starts at `pos` in the record
/// bytes.
fn parse_resident(rec: &[u8], h: AttributeHeader, t: ResidentHeader, pos: usize) -> (r: Result<
    Attribute,
    Error,
>)
    requires
        pos <= rec.len(),
    ensures
        match resident_value(rec@, h, t, pos + t.value_offset) {
            Ok(v) => r is Ok && r->Ok_0@ == v,
            Err(e) => r == Err::<Attribute, Error>(e),
        },
{
    let room = rec.len() - pos;
    let off = t.value_offset as usize;
    if h.type_code == STANDARD_INFORMATION_TYPE {
        if (t.value_length as usize) < STANDARD_INFORMATION_SIZE || off > room || room - off
            < STANDARD_INFORMATION_SIZE {
            return Err(Error::InvalidData);
        }
        let info = StandardInformation::decode(rec, pos + off);
        Ok(
            Attribute {
                header: h,
                resident: Some(t),
                non_resident: None,
                standard: Some(info),
                file_name: None,
                name: None,
            },
        )
    } else if h.type_code == FILE_NAME_TYPE {
        if (t.value_length as usize) < FILE_NAME_SIZE || off > room || room - off
            < FILE_NAME_SIZE {
            return Err(Error::InvalidData);
        }
        let data = pos + off;
        let f = FileNameInfo::decode(rec, data);
        let n = f.name_length as usize;
        if 2 * n > t.value_length as usize - FILE_NAME_SIZE || 2 * n > room - off
            - FILE_NAME_SIZE {
            return Err(Error::InvalidData);
        }
        let units = read_units(rec, data + FILE_NAME_SIZE, n);
        match decode_utf16(units.as_slice()) {
            Some(text) => Ok(
                Attribute {
                    header: h,
                    resident: Some(t),
                    non_resident: None,
                    standard: None,
                    file_name: Some(f),
                    name: Some(text),
                },
            ),
            None => Err(Error::InvalidData),
        }
    } else {
        Ok(
            Attribute {
                header: h,
                resident: Some(t),
                non_resident: None,
                standard: None,
                file_name: None,
                name: None,
            },
        )
    }
}

/// Decodes the attribute at `pos` of the record bytes: `None` for the end marker.
pub fn parse_attribute(rec: &[u8], pos: usize) -> (r: Result<Option<Attribute>, Error>)
    ensures
        match attribute_at(rec@, pos as int) {
            Ok(Some(v)) => r matches Ok(Some(a)) && a@ == v,
            Ok(None) => r matches Ok(None),
            Err(e) => r == Err::<Option<Attribute>, Error>(e),
        },
{
    let len = rec.len();
    if pos > len || len - pos < 4 {
        return Err(Error::InvalidData);
    }
    if read_u32(rec, pos) == END_TYPE {
        return Ok(None);
    }
    if len - pos < ATTRIBUTE_HEADER_SIZE {
        return Err(Error::InvalidData);
    }
    let h = AttributeHeader::decode(rec, pos);
    if h.record_length == 0 || h.record_length as usize > len - pos {
        return Err(Error::InvalidData);
    }
    if h.form_code == RESIDENT_FORM {
        if len - pos < ATTRIBUTE_HEADER_SIZE + RESIDENT_HEADER_SIZE {
            return Err(Error::InvalidData);
        }
        let t = ResidentHeader::decode(rec, pos + ATTRIBUTE_HEADER_SIZE);
        match parse_resident(rec, h, t, pos) {
            Ok(a) => Ok(Some(a)),
            Err(e) => Err(e),
        }
    } else if h.form_code == NONRESIDENT_FORM {
        if len - pos < ATTRIBUTE_HEADER_SIZE + NON_RESIDENT_HEADER_SIZE {
            return Err(Error::InvalidData);
        }
        let n = NonResidentHeader::decode(rec, pos + ATTRIBUTE_HEADER_SIZE);
        Ok(
            Some(
                Attribute {
                    header: h,
                    resident: None,
                    non_resident: Some(n),
                    standard: None,
                    file_name: None,
                    name: None,
                },
            ),
        )
    } else {
        Err(Error::InvalidData)
    }
}

/// Decodes the attributes of the record bytes from `first` on.
pub fn walk_attributes(rec: &[u8], first: usize) -> (r: Result<Vec<Attribute>, Error>)
    ensures
        match walk(rec@, first as nat) {
            Ok(s) => r is Ok && views(r->Ok_0@) == s,
            Err(e) => r == Err::<Vec<Attribute>, Error>(e),
        },
{
    let len = rec.len();
    let mut attributes: Vec<Attribute> = Vec::new();
    let mut pos: usize = first;
    while pos < len
        invariant
            len == rec@.len(),
            walk(rec@, first as nat) == after(views(attributes@), walk(rec@, pos as nat)),
        decreases len - pos,
    {
        let ghost done = views(attributes@);
        match parse_attribute(rec, pos) {
            Ok(Some(a)) => {
                let ghost v = a@;
                let step = a.header.record_length as usize;
                assert(walk(rec@, pos as nat) == after(seq![v], walk(rec@, (pos + step) as nat)));
                attributes.push(a);
                proof {
                    assert(views(attributes@) =~= done + seq![v]);
                    match walk(rec@, (pos + step) as nat) {
                        Ok(rest) => {
                            assert(done + (seq![v] + rest) =~= (done + seq![v]) + rest);
                        },
                        Err(_) => {},
                    }
                }
                pos = pos + step;
            },
            Ok(None) => {
                assert(done + Seq::<AttributeView>::empty() =~= done);
                return Ok(attributes);
            },
            Err(e) => {
                return Err(e);
            },
        }
    }
    assert(views(attributes@) + Seq::<AttributeView>::empty() =~= views(attributes@));
    Ok(attributes)
}

} // verus!
