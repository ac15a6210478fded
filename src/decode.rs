use vstd::prelude::*;
use vstd::utf8::{decode_utf8, valid_utf8};

use crate::types::{
    compression_method_of, extra_flags_of, flags_of, operating_system_of, CompressionMethod,
    ExtraField, ExtraFlags, Flags, GzipError, GzipFile, GzipFileModel, GzipFooter, GzipHeader,
    GzipHeaderModel, OperatingSystem, SubField, SubFieldModel,
};

verus! {

/// First magic byte of every GZIP stream.
pub const ID1: u8 = 0x1f;

/// Second magic byte of every GZIP stream.
pub const ID2: u8 = 0x8b;

/// Length of the footer: a 32-bit checksum and a 32-bit size.
pub const FOOTER_LEN: usize = 8;

/// The outcome of an executable decoder, as plain values: the bytes left
/// after the decoded field and the field's model, or the error.
pub open spec fn outcome<'a, T: View>(r: Result<(&'a [u8], T), GzipError>) -> Result<
    (Seq<u8>, T::V),
    GzipError,
> {
    match r {
        Ok((rest, v)) => Ok((rest@, v@)),
        Err(e) => Err(e),
    }
}

/// Same as `outcome`, for field values that are plain values already.
pub open spec fn outcome_of<'a, T>(r: Result<(&'a [u8], T), GzipError>) -> Result<
    (Seq<u8>, T),
    GzipError,
> {
    match r {
        Ok((rest, v)) => Ok((rest@, v)),
        Err(e) => Err(e),
    }
}

/// Little-endian value of two bytes.
pub open spec fn le16(b0: u8, b1: u8) -> u16 {
    (b0 as int + 256 * b1 as int) as u16
}

/// Little-endian value of four bytes.
pub open spec fn le32(b0: u8, b1: u8, b2: u8, b3: u8) -> u32 {
    (b0 as int + 256 * b1 as int + 65536 * b2 as int + 16777216 * b3 as int) as u32
}

/// One byte that must equal `tag`; the matched byte is returned.
pub open spec fn spec_tag(s: Seq<u8>, tag: u8) -> Result<(Seq<u8>, Seq<u8>), GzipError> {
    if s.len() < 1 {
        Err(GzipError::InsufficientData)
    } else if s[0] != tag {
        Err(GzipError::MagicMismatch)
    } else {
        Ok((s.skip(1), s.take(1)))
    }
}

/// Any one byte.
pub open spec fn spec_byte(s: Seq<u8>) -> Result<(Seq<u8>, u8), GzipError> {
    if s.len() < 1 {
        Err(GzipError::InsufficientData)
    } else {
        Ok((s.skip(1), s[0]))
    }
}

/// A little-endian 16-bit integer.
pub open spec fn spec_le_u16(s: Seq<u8>) -> Result<(Seq<u8>, u16), GzipError> {
    if s.len() < 2 {
        Err(GzipError::InsufficientData)
    } else {
        Ok((s.skip(2), le16(s[0], s[1])))
    }
}

/// A little-endian 32-bit integer.
pub open spec fn spec_le_u32(s: Seq<u8>) -> Result<(Seq<u8>, u32), GzipError> {
    if s.len() < 4 {
        Err(GzipError::InsufficientData)
    } else {
        Ok((s.skip(4), le32(s[0], s[1], s[2], s[3])))
    }
}

/// Two id bytes, a 16-bit length, then that many data bytes.
pub open spec fn spec_sub_field(s: Seq<u8>) -> Result<(Seq<u8>, SubFieldModel), GzipError> {
    if s.len() < 4 {
        Err(GzipError::InsufficientData)
    } else {
        let n = le16(s[2], s[3]) as int;
        if s.len() < 4 + n {
            Err(GzipError::InsufficientData)
        } else {
            Ok((s.skip(4 + n), SubFieldModel { id1: s[0], id2: s[1], data: s.subrange(4, 4 + n) }))
        }
    }
}

/// Puts `done` in front of the records of `r`, keeping an error as it is.
pub open spec fn prepend(done: Seq<SubFieldModel>, r: Result<Seq<SubFieldModel>, GzipError>) -> Result<
    Seq<SubFieldModel>,
    GzipError,
> {
    match r {
        Ok(fs) => Ok(done + fs),
        Err(e) => Err(e),
    }
}

/// The sub-records that fill `region` exactly; a record that does not fit
/// makes the whole region malformed.
pub open spec fn spec_sub_fields(region: Seq<u8>) -> Result<Seq<SubFieldModel>, GzipError>
    decreases region.len(),
{
    if region.len() == 0 {
        Ok(Seq::empty())
    } else if region.len() < 4 {
        Err(GzipError::MalformedExtraField)
    } else {
        let n = le16(region[2], region[3]) as int;
        if region.len() < 4 + n {
            Err(GzipError::MalformedExtraField)
        } else {
            let f = SubFieldModel { id1: region[0], id2: region[1], data: region.subrange(4, 4 + n) };
            prepend(seq![f], spec_sub_fields(region.skip(4 + n)))
        }
    }
}

/// A 16-bit aggregate length, then sub-records filling exactly that many bytes.
pub open spec fn spec_extra_field(s: Seq<u8>) -> Result<(Seq<u8>, Seq<SubFieldModel>), GzipError> {
    if s.len() < 2 {
        Err(GzipError::InsufficientData)
    } else {
        let n = le16(s[0], s[1]) as int;
        if s.len() < 2 + n {
            Err(GzipError::InsufficientData)
        } else {
            match spec_sub_fields(s.subrange(2, 2 + n)) {
                Ok(fs) => Ok((s.skip(2 + n), fs)),
                Err(e) => Err(e),
            }
        }
    }
}

/// `i` is the position of the first zero byte of `s`.
pub open spec fn is_first_nul(s: Seq<u8>, i: int) -> bool {
    &&& 0 <= i < s.len()
    &&& s[i] == 0
    &&& forall|j: int| 0 <= j < i ==> s[j] != 0
}

/// The bytes before the first zero byte, decoded as UTF-8; the zero byte
/// is consumed and left out.
pub open spec fn spec_null_terminated_string(s: Seq<u8>) -> Result<(Seq<u8>, Seq<char>), GzipError> {
    if exists|i: int| is_first_nul(s, i) {
        let i = choose|i: int| is_first_nul(s, i);
        if valid_utf8(s.take(i)) {
            Ok((s.skip(i + 1), decode_utf8(s.take(i))))
        } else {
            Err(GzipError::InvalidEncoding)
        }
    } else {
        Err(GzipError::UnterminatedString)
    }
}


fn tag<'a>(input: &'a [u8], expected: u8) -> (r: Result<(&'a [u8], &'a [u8]), GzipError>)
    ensures
        outcome(r) == spec_tag(input@, expected),
{
    if input.len() < 1 {
        return Err(GzipError::InsufficientData);
    }
    if input[0] != expected {
        return Err(GzipError::MagicMismatch);
    }
    let (matched, rest) = input.split_at(1);
    Ok((rest, matched))
}

/// Matches the first magic byte and returns it.
pub fn id1<'a>(input: &'a [u8]) -> (r: Result<(&'a [u8], &'a [u8]), GzipError>)
    ensures
        outcome(r) == spec_tag(input@, ID1),
{
    tag(input, ID1)
}

/// Matches the second magic byte and returns it.
pub fn id2<'a>(input: &'a [u8]) -> (r: Result<(&'a [u8], &'a [u8]), GzipError>)
    ensures
        outcome(r) == spec_tag(input@, ID2),
{
    tag(input, ID2)
}

/// Reads one byte.
pub fn get_byte<'a>(input: &'a [u8]) -> (r: Result<(&'a [u8], u8), GzipError>)
    ensures
        outcome_of(r) == spec_byte(input@),
{
    if input.len() < 1 {
        return Err(GzipError::InsufficientData);
    }
    let b = input[0];
    let (_, rest) = input.split_at(1);
    Ok((rest, b))
}

/// Reads a little-endian 16-bit integer.
pub fn le_u16<'a>(input: &'a [u8]) -> (r: Result<(&'a [u8], u16), GzipError>)
    ensures
        outcome_of(r) == spec_le_u16(input@),
{
    if input.len() < 2 {
        return Err(GzipError::InsufficientData);
    }
    let v: u16 = input[0] as u16 + (input[1] as u16) * 256;
    let (_, rest) = input.split_at(2);
    Ok((rest, v))
}

/// Reads a little-endian 32-bit integer.
pub fn le_u32<'a>(input: &'a [u8]) -> (r: Result<(&'a [u8], u32), GzipError>)
    ensures
        outcome_of(r) == spec_le_u32(input@),
{
    if input.len() < 4 {
        return Err(GzipError::InsufficientData);
    }
    let v: u32 = input[0] as u32 + (input[1] as u32) * 256 + (input[2] as u32) * 65536 + (
    input[3] as u32) * 16777216;
    let (_, rest) = input.split_at(4);
    Ok((rest, v))
}

/// Reads the compression method byte.
pub fn compression_method<'a>(input: &'a [u8]) -> (r: Result<(&'a [u8], CompressionMethod), GzipError>)
    ensures
        outcome_of(r) == (match spec_byte(input@) {
            Ok((rest, b)) => Ok((rest, compression_method_of(b))),
            Err(e) => Err(e),
        }),
{
    match get_byte(input) {
        Ok((rest, b)) => Ok((rest, CompressionMethod::from(b))),
        Err(e) => Err(e),
    }
}

/// Reads the flag byte.
pub fn flags<'a>(input: &'a [u8]) -> (r: Result<(&'a [u8], Flags), GzipError>)
    ensures
        outcome_of(r) == (match spec_byte(input@) {
            Ok((rest, b)) => Ok((rest, flags_of(b))),
            Err(e) => Err(e),
        }),
{
    match get_byte(input) {
        Ok((rest, b)) => Ok((rest, Flags::from(b))),
        Err(e) => Err(e),
    }
}

/// Reads the modification time, in seconds since the Unix epoch.
pub fn modified_time_as_secs_since_epoch<'a>(input: &'a [u8]) -> (r: Result<(&'a [u8], u32), GzipError>)
    ensures
        outcome_of(r) == spec_le_u32(input@),
{
    le_u32(input)
}

/// Reads the extra flags byte.
pub fn extra_flags<'a>(input: &'a [u8]) -> (r: Result<(&'a [u8], ExtraFlags), GzipError>)
    ensures
        outcome_of(r) == (match spec_byte(input@) {
            Ok((rest, b)) => Ok((rest, extra_flags_of(b))),
            Err(e) => Err(e),
        }),
{
    match get_byte(input) {
        Ok((rest, b)) => Ok((rest, ExtraFlags::from(b))),
        Err(e) => Err(e),
    }
}

/// Reads the operating system byte.
pub fn operating_system<'a>(input: &'a [u8]) -> (r: Result<(&'a [u8], OperatingSystem), GzipError>)
    ensures
        outcome_of(r) == (match spec_byte(input@) {
            Ok((rest, b)) => Ok((rest, operating_system_of(b))),
            Err(e) => Err(e),
        }),
{
    match get_byte(input) {
        Ok((rest, b)) => Ok((rest, OperatingSystem::from(b))),
        Err(e) => Err(e),
    }
}

/// Reads the optional 16-bit header checksum.
pub fn header_crc16<'a>(input: &'a [u8]) -> (r: Result<(&'a [u8], u16), GzipError>)
    ensures
        outcome_of(r) == spec_le_u16(input@),
{
    le_u16(input)
}

/// Reads the footer's 32-bit checksum.
pub fn footer_crc32<'a>(input: &'a [u8]) -> (r: Result<(&'a [u8], u32), GzipError>)
    ensures
        outcome_of(r) == spec_le_u32(input@),
{
    le_u32(input)
}

/// Reads the footer's 32-bit uncompressed size.
pub fn input_size<'a>(input: &'a [u8]) -> (r: Result<(&'a [u8], u32), GzipError>)
    ensures
        outcome_of(r) == spec_le_u32(input@),
{
    le_u32(input)
}


/// Reads one extra-field sub-record; its data borrows from `input`.
pub fn sub_field<'a>(input: &'a [u8]) -> (r: Result<(&'a [u8], SubField<'a>), GzipError>)
    ensures
        outcome(r) == spec_sub_field(input@),
{
    if input.len() < 4 {
        return Err(GzipError::InsufficientData);
    }
    let id1 = input[0];
    let id2 = input[1];
    let (_, after_ids) = input.split_at(2);
    let (after_len, n) = match le_u16(after_ids) {
        Ok(x) => x,
        Err(e) => return Err(e),
    };
    let n = n as usize;
    if after_len.len() < n {
        return Err(GzipError::InsufficientData);
    }
    let (data, rest) = after_len.split_at(n);
    proof {
        assert(data@ =~= input@.subrange(4, 4 + n));
        assert(rest@ =~= input@.skip(4 + n));
    }
    Ok((rest, SubField { id1, id2, data }))
}

/// The sub-records that fill `region` exactly.
fn sub_fields<'a>(region: &'a [u8]) -> (r: Result<Vec<SubField<'a>>, GzipError>)
    ensures
        match r {
            Ok(v) => spec_sub_fields(region@) == Ok::<Seq<SubFieldModel>, GzipError>(v@.map_values(|f: SubField<'a>| f@)),
            Err(e) => spec_sub_fields(region@) == Err::<Seq<SubFieldModel>, GzipError>(e),
        },
{
    let mut fields: Vec<SubField<'a>> = Vec::new();
    let mut rest = region;
    while rest.len() > 0
        invariant
            spec_sub_fields(region@) == prepend(
                fields@.map_values(|f: SubField<'a>| f@),
                spec_sub_fields(rest@),
            ),
        decreases rest@.len(),
    {
        match sub_field(rest) {
            Err(_) => {
                return Err(GzipError::MalformedExtraField);
            },
            Ok((next, f)) => {
                let ghost done = fields@.map_values(|f: SubField<'a>| f@);
                let ghost fm = f@;
                fields.push(f);
                proof {
                    assert(fields@.map_values(|f: SubField<'a>| f@) =~= done.push(fm));
                    match spec_sub_fields(next@) {
                        Ok(fs) => {
                            assert(done + (seq![fm] + fs) =~= done.push(fm) + fs);
                        },
                        Err(_) => {},
                    }
                }
                rest = next;
            },
        }
    }
    proof {
        assert(fields@.map_values(|f: SubField<'a>| f@) + Seq::<SubFieldModel>::empty()
            =~= fields@.map_values(|f: SubField<'a>| f@));
    }
    Ok(fields)
}

/// Reads the extra field: a 16-bit length, then sub-records that fill that
/// many bytes exactly.
pub fn extra_field<'a>(input: &'a [u8]) -> (r: Result<(&'a [u8], ExtraField<'a>), GzipError>)
    ensures
        outcome(r) == spec_extra_field(input@),
{
    let (after_len, n) = match le_u16(input) {
        Ok(x) => x,
        Err(e) => return Err(e),
    };
    let n = n as usize;
    if after_len.len() < n {
        return Err(GzipError::InsufficientData);
    }
    let (region, rest) = after_len.split_at(n);
    proof {
        assert(region@ =~= input@.subrange(2, 2 + n));
        assert(rest@ =~= input@.skip(2 + n));
    }
    match sub_fields(region) {
        Ok(sub_fields) => Ok((rest, ExtraField { sub_fields })),
        Err(e) => Err(e),
    }
}

proof fn lemma_first_nul_unique(s: Seq<u8>, i: int, k: int)
    requires
        is_first_nul(s, i),
        is_first_nul(s, k),
    ensures
        i == k,
{
    if i < k {
        assert(s[i] != 0);
    } else if k < i {
        assert(s[k] != 0);
    }
}

/// Position of the first zero byte, if there is one.
pub fn find_terminator(input: &[u8]) -> (r: Option<usize>)
    ensures
        match r {
            Some(i) => is_first_nul(input@, i as int),
            None => forall|j: int| 0 <= j < input@.len() ==> input@[j] != 0,
        },
{
    let mut i: usize = 0;
    while i < input.len()
        invariant
            i <= input@.len(),
            forall|j: int| 0 <= j < i ==> input@[j] != 0,
        decreases input@.len() - i,
    {
        if input[i] == 0 {
            return Some(i);
        }
        i = i + 1;
    }
    None
}

/// Relies on `String::from_utf8`: it succeeds exactly when the bytes are
/// valid UTF-8, and then holds the characters they encode.
#[verifier::external_body]
fn string_from_utf8(bytes: &[u8]) -> (r: Option<String>)
    ensures
        r is Some <==> valid_utf8(bytes@),
        r matches Some(s) ==> s@ == decode_utf8(bytes@),
{
    String::from_utf8(bytes.to_vec()).ok()
}

/// Reads a zero-terminated UTF-8 string; the terminator is consumed and
/// not part of the result.
pub fn null_terminated_string<'a>(input: &'a [u8]) -> (r: Result<(&'a [u8], String), GzipError>)
    ensures
        outcome(r) == spec_null_terminated_string(input@),
{
    match find_terminator(input) {
        None => {
            proof {
                assert forall|i: int| !is_first_nul(input@, i) by {
                    if is_first_nul(input@, i) {
                        assert(input@[i] != 0);
                    }
                }
            }
            Err(GzipError::UnterminatedString)
        },
        Some(i) => {
            proof {
                let k = choose|k: int| is_first_nul(input@, k);
                lemma_first_nul_unique(input@, i as int, k);
            }
            let (body, tail) = input.split_at(i);
            let (_, rest) = tail.split_at(1);
            proof {
                assert(body@ =~= input@.take(i as int));
                assert(rest@ =~= input@.skip(i + 1));
            }
            match string_from_utf8(body) {
                Some(s) => Ok((rest, s)),
                None => Err(GzipError::InvalidEncoding),
            }
        },
    }
}

/// Reads the original file name field.
pub fn original_filename<'a>(input: &'a [u8]) -> (r: Result<(&'a [u8], String), GzipError>)
    ensures
        outcome(r) == spec_null_terminated_string(input@),
{
    null_terminated_string(input)
}

/// Reads the file comment field.
pub fn file_comment<'a>(input: &'a [u8]) -> (r: Result<(&'a [u8], String), GzipError>)
    ensures
        outcome(r) == spec_null_terminated_string(input@),
{
    null_terminated_string(input)
}


/// The extra field if `present`, else nothing read.
pub open spec fn spec_optional_extra_field(present: bool, s: Seq<u8>) -> Result<
    (Seq<u8>, Option<Seq<SubFieldModel>>),
    GzipError,
> {
    if !present {
        Ok((s, None))
    } else {
        match spec_extra_field(s) {
            Ok((rest, fs)) => Ok((rest, Some(fs))),
            Err(e) => Err(e),
        }
    }
}

/// A zero-terminated string if `present`, else nothing read.
pub open spec fn spec_optional_string(present: bool, s: Seq<u8>) -> Result<
    (Seq<u8>, Option<Seq<char>>),
    GzipError,
> {
    if !present {
        Ok((s, None))
    } else {
        match spec_null_terminated_string(s) {
            Ok((rest, v)) => Ok((rest, Some(v))),
            Err(e) => Err(e),
        }
    }
}

/// A 16-bit checksum if `present`, else nothing read.
pub open spec fn spec_optional_crc(present: bool, s: Seq<u8>) -> Result<(Seq<u8>, Option<u16>), GzipError> {
    if !present {
        Ok((s, None))
    } else {
        match spec_le_u16(s) {
            Ok((rest, v)) => Ok((rest, Some(v))),
            Err(e) => Err(e),
        }
    }
}

/// The header: the two magic bytes, the ten-byte fixed part, then the
/// optional fields in their fixed order, each read only when its flag is set.
pub open spec fn spec_gzip_header(s: Seq<u8>) -> Result<(Seq<u8>, GzipHeaderModel), GzipError> {
    if s.len() < 1 {
        Err(GzipError::InsufficientData)
    } else if s[0] != ID1 {
        Err(GzipError::MagicMismatch)
    } else if s.len() < 2 {
        Err(GzipError::InsufficientData)
    } else if s[1] != ID2 {
        Err(GzipError::MagicMismatch)
    } else if s.len() < 10 {
        Err(GzipError::InsufficientData)
    } else {
        let flags = flags_of(s[3]);
        match spec_optional_extra_field(flags.fextra, s.skip(10)) {
            Err(e) => Err(e),
            Ok((s1, extra_field)) => match spec_optional_string(flags.fname, s1) {
                Err(e) => Err(e),
                Ok((s2, original_filename)) => match spec_optional_string(flags.fcomment, s2) {
                    Err(e) => Err(e),
                    Ok((s3, file_comment)) => match spec_optional_crc(flags.fhcrc, s3) {
                        Err(e) => Err(e),
                        Ok((s4, header_crc)) => Ok(
                            (
                                s4,
                                GzipHeaderModel {
                                    compression_method: compression_method_of(s[2]),
                                    flags,
                                    modified_time_as_secs_since_epoch: le32(s[4], s[5], s[6], s[7]),
                                    extra_flags: extra_flags_of(s[8]),
                                    operating_system: operating_system_of(s[9]),
                                    extra_field,
                                    original_filename,
                                    file_comment,
                                    header_crc,
                                },
                            ),
                        ),
                    },
                },
            },
        }
    }
}

/// The footer: checksum and size, and nothing after them.
pub open spec fn spec_gzip_footer(s: Seq<u8>) -> Result<(Seq<u8>, GzipFooter), GzipError> {
    if s.len() < 8 {
        Err(GzipError::InsufficientData)
    } else if s.len() > 8 {
        Err(GzipError::FooterNotAtEnd)
    } else {
        Ok(
            (
                s.skip(8),
                GzipFooter { crc: le32(s[0], s[1], s[2], s[3]), input_size: le32(s[4], s[5], s[6], s[7]) },
            ),
        )
    }
}

/// A whole stream: the header, then the payload up to the last eight bytes,
/// which are the footer.
pub open spec fn spec_gzip_file(s: Seq<u8>) -> Result<(Seq<u8>, GzipFileModel), GzipError> {
    match spec_gzip_header(s) {
        Err(e) => Err(e),
        Ok((rest, header)) => if rest.len() < 8 {
            Err(GzipError::TruncatedFile)
        } else {
            match spec_gzip_footer(rest.skip(rest.len() - 8)) {
                Err(e) => Err(e),
                Ok((end, footer)) => Ok(
                    (
                        end,
                        GzipFileModel {
                            header,
                            footer,
                            compressed_blocks: rest.take(rest.len() - 8),
                        },
                    ),
                ),
            }
        },
    }
}

fn optional_extra_field<'a>(present: bool, input: &'a [u8]) -> (r: Result<
    (&'a [u8], Option<ExtraField<'a>>),
    GzipError,
>)
    ensures
        match r {
            Ok((rest, v)) => spec_optional_extra_field(present, input@) == Ok::<
                (Seq<u8>, Option<Seq<SubFieldModel>>),
                GzipError,
            >((rest@, match v {
                Some(x) => Some(x@),
                None => None,
            })),
            Err(e) => spec_optional_extra_field(present, input@) == Err::<
                (Seq<u8>, Option<Seq<SubFieldModel>>),
                GzipError,
            >(e),
        },
{
    if !present {
        return Ok((input, None));
    }
    match extra_field(input) {
        Ok((rest, v)) => Ok((rest, Some(v))),
        Err(e) => Err(e),
    }
}

fn optional_string<'a>(present: bool, input: &'a [u8]) -> (r: Result<(&'a [u8], Option<String>), GzipError>)
    ensures
        match r {
            Ok((rest, v)) => spec_optional_string(present, input@) == Ok::<
                (Seq<u8>, Option<Seq<char>>),
                GzipError,
            >((rest@, crate::types::opt_string_view(v))),
            Err(e) => spec_optional_string(present, input@) == Err::<
                (Seq<u8>, Option<Seq<char>>),
                GzipError,
            >(e),
        },
{
    if !present {
        return Ok((input, None));
    }
    match null_terminated_string(input) {
        Ok((rest, v)) => Ok((rest, Some(v))),
        Err(e) => Err(e),
    }
}

fn optional_crc<'a>(present: bool, input: &'a [u8]) -> (r: Result<(&'a [u8], Option<u16>), GzipError>)
    ensures
        outcome_of(r) == spec_optional_crc(present, input@),
{
    if !present {
        return Ok((input, None));
    }
    match header_crc16(input) {
        Ok((rest, v)) => Ok((rest, Some(v))),
        Err(e) => Err(e),
    }
}

/// Decodes the header at the front of `input` and returns it with the bytes
/// that follow it. The extra field's sub-records borrow from `input`.
pub fn gzip_header<'a>(input: &'a [u8]) -> (r: Result<(&'a [u8], GzipHeader<'a>), GzipError>)
    ensures
        outcome(r) == spec_gzip_header(input@),
{
    let (rest, _) = match id1(input) {
        Ok(x) => x,
        Err(e) => return Err(e),
    };
    let (rest, _) = match id2(rest) {
        Ok(x) => x,
        Err(e) => return Err(e),
    };
    if rest.len() < 8 {
        return Err(GzipError::InsufficientData);
    }
    let (rest, compression_method) = match compression_method(rest) {
        Ok(x) => x,
        Err(e) => return Err(e),
    };
    let (rest, flags) = match flags(rest) {
        Ok(x) => x,
        Err(e) => return Err(e),
    };
    let (rest, modified_time_as_secs_since_epoch) = match modified_time_as_secs_since_epoch(rest) {
        Ok(x) => x,
        Err(e) => return Err(e),
    };
    let (rest, extra_flags) = match extra_flags(rest) {
        Ok(x) => x,
        Err(e) => return Err(e),
    };
    let (rest, operating_system) = match operating_system(rest) {
        Ok(x) => x,
        Err(e) => return Err(e),
    };
    proof {
        assert(rest@ =~= input@.skip(10));
    }
    let (rest, extra_field) = match optional_extra_field(flags.fextra, rest) {
        Ok(x) => x,
        Err(e) => return Err(e),
    };
    let (rest, original_filename) = match optional_string(flags.fname, rest) {
        Ok(x) => x,
        Err(e) => return Err(e),
    };
    let (rest, file_comment) = match optional_string(flags.fcomment, rest) {
        Ok(x) => x,
        Err(e) => return Err(e),
    };
    let (rest, header_crc) = match optional_crc(flags.fhcrc, rest) {
        Ok(x) => x,
        Err(e) => return Err(e),
    };
    Ok(
        (
            rest,
            GzipHeader {
                compression_method,
                flags,
                modified_time_as_secs_since_epoch,
                extra_flags,
                operating_system,
                extra_field,
                original_filename,
                file_comment,
                header_crc,
            },
        ),
    )
}

/// Decodes the footer, which must be exactly the eight bytes of `input`.
pub fn gzip_footer<'a>(input: &'a [u8]) -> (r: Result<(&'a [u8], GzipFooter), GzipError>)
    ensures
        outcome_of(r) == spec_gzip_footer(input@),
{
    let (rest, crc) = match footer_crc32(input) {
        Ok(x) => x,
        Err(e) => return Err(e),
    };
    let (rest, input_size) = match input_size(rest) {
        Ok(x) => x,
        Err(e) => return Err(e),
    };
    if rest.len() > 0 {
        return Err(GzipError::FooterNotAtEnd);
    }
    proof {
        assert(rest@ =~= input@.skip(8));
    }
    Ok((rest, GzipFooter { crc, input_size }))
}

/// Decodes a whole single-member stream: the header, the compressed payload
/// (copied) and the footer in the last eight bytes.
pub fn gzip_file<'a>(input: &'a [u8]) -> (r: Result<(&'a [u8], GzipFile<'a>), GzipError>)
    ensures
        outcome(r) == spec_gzip_file(input@),
{
    let (rest, header) = match gzip_header(input) {
        Ok(x) => x,
        Err(e) => return Err(e),
    };
    if rest.len() < FOOTER_LEN {
        return Err(GzipError::TruncatedFile);
    }
    let (payload, tail) = rest.split_at(rest.len() - FOOTER_LEN);
    let (end, footer) = match gzip_footer(tail) {
        Ok(x) => x,
        Err(e) => return Err(e),
    };
    let compressed_blocks = vstd::slice::slice_to_vec(payload);
    Ok((end, GzipFile { header, footer, compressed_blocks }))
}

} // verus!
