use vstd::prelude::*;

verus! {

/// Compression method byte of the header: codes 0 to 7 are reserved, 8 is
/// deflate, anything else is unknown.
#[derive(Debug, PartialEq, Eq, Structural, Clone, Copy)]
pub enum CompressionMethod {
    Reserved0,
    Reserved1,
    Reserved2,
    Reserved3,
    Reserved4,
    Reserved5,
    Reserved6,
    Reserved7,
    Deflate,
    Unknown,
}

/// The compression method that a byte codes for.
pub open spec fn compression_method_of(byte: u8) -> CompressionMethod {
    match byte {
        0 => CompressionMethod::Reserved0,
        1 => CompressionMethod::Reserved1,
        2 => CompressionMethod::Reserved2,
        3 => CompressionMethod::Reserved3,
        4 => CompressionMethod::Reserved4,
        5 => CompressionMethod::Reserved5,
        6 => CompressionMethod::Reserved6,
        7 => CompressionMethod::Reserved7,
        8 => CompressionMethod::Deflate,
        _ => CompressionMethod::Unknown,
    }
}

impl From<u8> for CompressionMethod {
    fn from(byte: u8) -> Self {
        match byte {
            0 => CompressionMethod::Reserved0,
            1 => CompressionMethod::Reserved1,
            2 => CompressionMethod::Reserved2,
            3 => CompressionMethod::Reserved3,
            4 => CompressionMethod::Reserved4,
            5 => CompressionMethod::Reserved5,
            6 => CompressionMethod::Reserved6,
            7 => CompressionMethod::Reserved7,
            8 => CompressionMethod::Deflate,
            _ => CompressionMethod::Unknown,
        }
    }
}

impl vstd::std_specs::convert::FromSpecImpl<u8> for CompressionMethod {
    open spec fn obeys_from_spec() -> bool {
        true
    }

    open spec fn from_spec(byte: u8) -> Self {
        compression_method_of(byte)
    }
}


/// The five flag bits of the header (bit 0 to bit 4); bits 5 to 7 are unused.
#[derive(Debug, PartialEq, Eq, Structural, Clone, Copy)]
pub struct Flags {
    pub ftext: bool,
    pub fhcrc: bool,
    pub fextra: bool,
    pub fname: bool,
    pub fcomment: bool,
}

/// The flags that a byte sets.
pub open spec fn flags_of(byte: u8) -> Flags {
    Flags {
        ftext: byte & 0b0000_0001 > 0,
        fhcrc: byte & 0b0000_0010 > 0,
        fextra: byte & 0b0000_0100 > 0,
        fname: byte & 0b0000_1000 > 0,
        fcomment: byte & 0b0001_0000 > 0,
    }
}

impl From<u8> for Flags {
    fn from(byte: u8) -> Self {
        Flags {
            ftext: byte & 0b0000_0001 > 0,
            fhcrc: byte & 0b0000_0010 > 0,
            fextra: byte & 0b0000_0100 > 0,
            fname: byte & 0b0000_1000 > 0,
            fcomment: byte & 0b0001_0000 > 0,
        }
    }
}

impl vstd::std_specs::convert::FromSpecImpl<u8> for Flags {
    open spec fn obeys_from_spec() -> bool {
        true
    }

    open spec fn from_spec(byte: u8) -> Self {
        flags_of(byte)
    }
}

/// Extra flags byte: 2 means maximum compression, 4 the fastest algorithm;
/// every other value is unknown.
#[derive(Debug, PartialEq, Eq, Structural, Clone, Copy)]
pub enum ExtraFlags {
    MaximumCompression,
    FastestAlgorithm,
    Unknown,
}

/// The extra flags that a byte codes for.
pub open spec fn extra_flags_of(byte: u8) -> ExtraFlags {
    match byte {
        2 => ExtraFlags::MaximumCompression,
        4 => ExtraFlags::FastestAlgorithm,
        _ => ExtraFlags::Unknown,
    }
}

impl From<u8> for ExtraFlags {
    fn from(byte: u8) -> Self {
        match byte {
            2 => ExtraFlags::MaximumCompression,
            4 => ExtraFlags::FastestAlgorithm,
            _ => ExtraFlags::Unknown,
        }
    }
}

impl vstd::std_specs::convert::FromSpecImpl<u8> for ExtraFlags {
    open spec fn obeys_from_spec() -> bool {
        true
    }

    open spec fn from_spec(byte: u8) -> Self {
        extra_flags_of(byte)
    }
}

/// Operating system byte: codes 0 to 13 are known, every other value
/// (the format's own "unknown" code 255 included) is `Unknown`.
#[derive(Debug, PartialEq, Eq, Structural, Clone, Copy)]
pub enum OperatingSystem {
    Fat,
    Amiga,
    Vms,
    Unix,
    VmCms,
    AtariTos,
    Hpfs,
    Macintosh,
    Zsystem,
    Cpm,
    Tops20,
    Ntfs,
    Qdos,
    AcornRiscos,
    Unknown,
}

/// The operating system that a byte codes for.
pub open spec fn operating_system_of(byte: u8) -> OperatingSystem {
    match byte {
        0 => OperatingSystem::Fat,
        1 => OperatingSystem::Amiga,
        2 => OperatingSystem::Vms,
        3 => OperatingSystem::Unix,
        4 => OperatingSystem::VmCms,
        5 => OperatingSystem::AtariTos,
        6 => OperatingSystem::Hpfs,
        7 => OperatingSystem::Macintosh,
        8 => OperatingSystem::Zsystem,
        9 => OperatingSystem::Cpm,
        10 => OperatingSystem::Tops20,
        11 => OperatingSystem::Ntfs,
        12 => OperatingSystem::Qdos,
        13 => OperatingSystem::AcornRiscos,
        _ => OperatingSystem::Unknown,
    }
}

impl From<u8> for OperatingSystem {
    fn from(byte: u8) -> Self {
        match byte {
            0 => OperatingSystem::Fat,
            1 => OperatingSystem::Amiga,
            2 => OperatingSystem::Vms,
            3 => OperatingSystem::Unix,
            4 => OperatingSystem::VmCms,
            5 => OperatingSystem::AtariTos,
            6 => OperatingSystem::Hpfs,
            7 => OperatingSystem::Macintosh,
            8 => OperatingSystem::Zsystem,
            9 => OperatingSystem::Cpm,
            10 => OperatingSystem::Tops20,
            11 => OperatingSystem::Ntfs,
            12 => OperatingSystem::Qdos,
            13 => OperatingSystem::AcornRiscos,
            _ => OperatingSystem::Unknown,
        }
    }
}

impl vstd::std_specs::convert::FromSpecImpl<u8> for OperatingSystem {
    open spec fn obeys_from_spec() -> bool {
        true
    }

    open spec fn from_spec(byte: u8) -> Self {
        operating_system_of(byte)
    }
}

/// One vendor sub-record of the extra field. `data` borrows from the
/// decoded buffer, which must outlive the record.
#[derive(Debug, PartialEq, Eq)]
pub struct SubField<'a> {
    pub id1: u8,
    pub id2: u8,
    pub data: &'a [u8],
}

/// What a sub-record holds, as plain values.
pub struct SubFieldModel {
    pub id1: u8,
    pub id2: u8,
    pub data: Seq<u8>,
}

impl<'a> View for SubField<'a> {
    type V = SubFieldModel;

    open spec fn view(&self) -> SubFieldModel {
        SubFieldModel { id1: self.id1, id2: self.id2, data: self.data@ }
    }
}

/// The extra field: its sub-records, in the order they were encoded.
#[derive(Debug, PartialEq, Eq)]
pub struct ExtraField<'a> {
    pub sub_fields: Vec<SubField<'a>>,
}

impl<'a> View for ExtraField<'a> {
    type V = Seq<SubFieldModel>;

    open spec fn view(&self) -> Seq<SubFieldModel> {
        self.sub_fields@.map_values(|f: SubField<'a>| f@)
    }
}

/// The decoded header. The optional fields are present exactly when their
/// flag bit is set.
#[derive(Debug)]
pub struct GzipHeader<'a> {
    pub compression_method: CompressionMethod,
    pub flags: Flags,
    pub modified_time_as_secs_since_epoch: u32,
    pub extra_flags: ExtraFlags,
    pub operating_system: OperatingSystem,
    pub extra_field: Option<ExtraField<'a>>,
    pub original_filename: Option<String>,
    pub file_comment: Option<String>,
    pub header_crc: Option<u16>,
}

/// What a header holds, as plain values.
pub struct GzipHeaderModel {
    pub compression_method: CompressionMethod,
    pub flags: Flags,
    pub modified_time_as_secs_since_epoch: u32,
    pub extra_flags: ExtraFlags,
    pub operating_system: OperatingSystem,
    pub extra_field: Option<Seq<SubFieldModel>>,
    pub original_filename: Option<Seq<char>>,
    pub file_comment: Option<Seq<char>>,
    pub header_crc: Option<u16>,
}

/// The characters of an optional string.
pub open spec fn opt_string_view(s: Option<String>) -> Option<Seq<char>> {
    match s {
        Some(s) => Some(s@),
        None => None,
    }
}

impl<'a> View for GzipHeader<'a> {
    type V = GzipHeaderModel;

    open spec fn view(&self) -> GzipHeaderModel {
        GzipHeaderModel {
            compression_method: self.compression_method,
            flags: self.flags,
            modified_time_as_secs_since_epoch: self.modified_time_as_secs_since_epoch,
            extra_flags: self.extra_flags,
            operating_system: self.operating_system,
            extra_field: match self.extra_field {
                Some(x) => Some(x@),
                None => None,
            },
            original_filename: opt_string_view(self.original_filename),
            file_comment: opt_string_view(self.file_comment),
            header_crc: self.header_crc,
        }
    }
}

/// The footer: the checksum of the uncompressed data and its size modulo 2^32.
#[derive(Debug, PartialEq, Eq, Structural, Clone, Copy)]
pub struct GzipFooter {
    pub crc: u32,
    pub input_size: u32,
}

/// A whole single-member stream: header, raw compressed payload and footer.
#[derive(Debug)]
pub struct GzipFile<'a> {
    pub header: GzipHeader<'a>,
    pub footer: GzipFooter,
    pub compressed_blocks: Vec<u8>,
}

/// What a whole stream holds, as plain values.
pub struct GzipFileModel {
    pub header: GzipHeaderModel,
    pub footer: GzipFooter,
    pub compressed_blocks: Seq<u8>,
}

impl<'a> View for GzipFile<'a> {
    type V = GzipFileModel;

    open spec fn view(&self) -> GzipFileModel {
        GzipFileModel {
            header: self.header@,
            footer: self.footer,
            compressed_blocks: self.compressed_blocks@,
        }
    }
}

/// Why a decode failed.
#[derive(Debug, PartialEq, Eq, Structural, Clone, Copy)]
pub enum GzipError {
    /// The leading magic bytes are not the GZIP pair.
    MagicMismatch,
    /// Fewer bytes are left than a field needs.
    InsufficientData,
    /// A string field is not valid UTF-8.
    InvalidEncoding,
    /// No terminating zero byte follows a string field.
    UnterminatedString,
    /// The sub-records do not fill the declared extra-field length exactly.
    MalformedExtraField,
    /// Bytes follow what would be the footer.
    FooterNotAtEnd,
    /// The input ends before a footer could be read.
    TruncatedFile,
}

} // verus!
