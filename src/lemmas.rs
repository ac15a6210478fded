use vstd::prelude::*;

use crate::decode::{
    le16, spec_extra_field, spec_gzip_file, spec_gzip_footer, spec_gzip_header,
    spec_null_terminated_string, spec_optional_crc, spec_optional_extra_field,
    spec_optional_string, spec_sub_fields, is_first_nul,
};
use crate::types::{
    compression_method_of, extra_flags_of, flags_of, operating_system_of, CompressionMethod,
    ExtraFlags, GzipError, OperatingSystem, SubFieldModel,
};

verus! {

/// Every byte has a compression method: the codes 0 to 8 each have a
/// variant of their own, and every other byte is `Unknown`.
pub proof fn lemma_compression_method_total(a: u8, b: u8)
    ensures
        compression_method_of(a) is Unknown <==> a > 8,
        a <= 8 && b <= 8 && compression_method_of(a) == compression_method_of(b) ==> a == b,
{
}

/// Each flag is the bit of its position (bit 0 to bit 4), and bits 5 to 7
/// change nothing.
pub proof fn lemma_flags_bits(b: u8)
    ensures
        flags_of(b).ftext == (b % 2 == 1),
        flags_of(b).fhcrc == ((b / 2) % 2 == 1),
        flags_of(b).fextra == ((b / 4) % 2 == 1),
        flags_of(b).fname == ((b / 8) % 2 == 1),
        flags_of(b).fcomment == ((b / 16) % 2 == 1),
        flags_of(b) == flags_of(b & 0b0001_1111),
{
    assert((b & 1 > 0) == (b % 2 == 1)) by (bit_vector);
    assert((b & 2 > 0) == ((b / 2) % 2 == 1)) by (bit_vector);
    assert((b & 4 > 0) == ((b / 4) % 2 == 1)) by (bit_vector);
    assert((b & 8 > 0) == ((b / 8) % 2 == 1)) by (bit_vector);
    assert((b & 16 > 0) == ((b / 16) % 2 == 1)) by (bit_vector);
    assert(((b & 0x1f) & 1) == (b & 1)) by (bit_vector);
    assert(((b & 0x1f) & 2) == (b & 2)) by (bit_vector);
    assert(((b & 0x1f) & 4) == (b & 4)) by (bit_vector);
    assert(((b & 0x1f) & 8) == (b & 8)) by (bit_vector);
    assert(((b & 0x1f) & 16) == (b & 16)) by (bit_vector);
}

/// A byte with bits 1 and 2 cleared is never a known extra-flags code;
/// 2 is maximum compression and 4 the fastest algorithm.
pub proof fn lemma_extra_flags_codes(b: u8)
    ensures
        extra_flags_of(b & 0b1111_1001) == ExtraFlags::Unknown,
        extra_flags_of(2) == ExtraFlags::MaximumCompression,
        extra_flags_of(4) == ExtraFlags::FastestAlgorithm,
{
    assert(b & 0xf9 != 2 && b & 0xf9 != 4) by (bit_vector);
}

/// Every byte has an operating system: the codes 0 to 13 each have a
/// variant of their own, and every other byte is `Unknown`.
pub proof fn lemma_operating_system_total(a: u8, b: u8)
    ensures
        operating_system_of(a) is Unknown <==> a > 13,
        a <= 13 && b <= 13 && operating_system_of(a) == operating_system_of(b) ==> a == b,
{
}

/// Input without a zero byte is an unterminated string.
pub proof fn lemma_unterminated_string(s: Seq<u8>)
    requires
        forall|j: int| 0 <= j < s.len() ==> s[j] != 0,
    ensures
        spec_null_terminated_string(s) == Err::<(Seq<u8>, Seq<char>), GzipError>(
            GzipError::UnterminatedString,
        ),
{
    assert forall|i: int| !is_first_nul(s, i) by {
        if is_first_nul(s, i) {
            assert(s[i] != 0);
        }
    }
}

/// Input shorter than the fixed part of the header is refused, as too
/// short or for its magic bytes.
pub proof fn lemma_short_header(s: Seq<u8>)
    requires
        s.len() < 10,
    ensures
        spec_gzip_header(s) == Err::<(Seq<u8>, crate::types::GzipHeaderModel), GzipError>(
            GzipError::InsufficientData,
        ) || spec_gzip_header(s) == Err::<(Seq<u8>, crate::types::GzipHeaderModel), GzipError>(
            GzipError::MagicMismatch,
        ),
{
}


/// The two little-endian bytes of a 16-bit length.
pub open spec fn u16_bytes(n: nat) -> Seq<u8> {
    seq![(n % 256) as u8, (n / 256) as u8]
}

/// The bytes of one sub-record: its two ids, its data length, its data.
pub open spec fn sub_field_bytes(f: SubFieldModel) -> Seq<u8> {
    seq![f.id1, f.id2] + u16_bytes(f.data.len()) + f.data
}

proof fn lemma_u16_bytes(n: nat)
    requires
        n < 65536,
    ensures
        le16(u16_bytes(n)[0], u16_bytes(n)[1]) == n,
{
    assert(n % 256 + 256 * (n / 256) == n) by (nonlinear_arith);
    assert(n / 256 < 256) by (nonlinear_arith)
        requires
            n < 65536,
    ;
}

/// An extra field whose declared length is the size of its two sub-records
/// decodes to exactly those two, in order, and leaves what follows; declared
/// one byte short, it is malformed.
pub proof fn lemma_extra_field_two_records(f1: SubFieldModel, f2: SubFieldModel, tail: Seq<u8>)
    requires
        8 + f1.data.len() + f2.data.len() < 65536,
    ensures
        ({
            let body = sub_field_bytes(f1) + sub_field_bytes(f2);
            &&& spec_extra_field(u16_bytes(body.len()) + body + tail) == Ok::<
                (Seq<u8>, Seq<SubFieldModel>),
                GzipError,
            >((tail, seq![f1, f2]))
            &&& spec_extra_field(u16_bytes((body.len() - 1) as nat) + body + tail) == Err::<
                (Seq<u8>, Seq<SubFieldModel>),
                GzipError,
            >(GzipError::MalformedExtraField)
        }),
{
    let b1 = sub_field_bytes(f1);
    let b2 = sub_field_bytes(f2);
    let body = b1 + b2;
    let n1 = f1.data.len() as int;
    let n2 = f2.data.len() as int;
    let len = body.len() as int;
    lemma_u16_bytes(n1 as nat);
    lemma_u16_bytes(n2 as nat);
    lemma_u16_bytes(len as nat);
    lemma_u16_bytes((len - 1) as nat);
    assert(le16(body[2], body[3]) == n1);
    assert(le16(b2[2], b2[3]) == n2);

    // declared length matches
    let s = u16_bytes(len as nat) + body + tail;
    assert(le16(s[0], s[1]) == len);
    assert(s.subrange(2, 2 + len) =~= body);
    assert(s.skip(2 + len) =~= tail);
    assert(body.subrange(4, 4 + n1) =~= f1.data);
    assert(body.skip(4 + n1) =~= b2);
    assert(b2.subrange(4, 4 + n2) =~= f2.data);
    assert(b2.skip(4 + n2) =~= Seq::<u8>::empty());
    assert(spec_sub_fields(Seq::<u8>::empty()) == Ok::<Seq<SubFieldModel>, GzipError>(
        Seq::empty(),
    ));
    assert(seq![f2] + Seq::<SubFieldModel>::empty() =~= seq![f2]);
    assert(spec_sub_fields(b2) == Ok::<Seq<SubFieldModel>, GzipError>(seq![f2]));
    assert(seq![f1] + seq![f2] =~= seq![f1, f2]);
    assert(spec_sub_fields(body) == Ok::<Seq<SubFieldModel>, GzipError>(seq![f1, f2]));

    // declared one byte short
    let t = u16_bytes((len - 1) as nat) + body + tail;
    let short = body.take(len - 1);
    let short2 = b2.take(b2.len() - 1);
    assert(le16(t[0], t[1]) == len - 1);
    assert(t.subrange(2, 2 + len - 1) =~= short);
    assert(short[2] == body[2] && short[3] == body[3]);
    assert(short.skip(4 + n1) =~= short2);
    if short2.len() >= 4 {
        assert(short2[2] == b2[2] && short2[3] == b2[3]);
    }
    assert(spec_sub_fields(short2) == Err::<Seq<SubFieldModel>, GzipError>(
        GzipError::MalformedExtraField,
    ));
    assert(spec_sub_fields(short) == Err::<Seq<SubFieldModel>, GzipError>(
        GzipError::MalformedExtraField,
    ));
}

/// `r` is what is left of `s` once a prefix has been read.
pub open spec fn is_suffix(r: Seq<u8>, s: Seq<u8>) -> bool {
    r.len() <= s.len() && r == s.skip(s.len() - r.len())
}

proof fn lemma_suffix_trans(a: Seq<u8>, b: Seq<u8>, c: Seq<u8>)
    requires
        is_suffix(a, b),
        is_suffix(b, c),
    ensures
        is_suffix(a, c),
{
    assert(a =~= c.skip(c.len() - a.len()));
}

proof fn lemma_optional_fields_leave_suffix(present: bool, s: Seq<u8>)
    ensures
        spec_optional_extra_field(present, s) is Ok ==> is_suffix(
            spec_optional_extra_field(present, s)->Ok_0.0,
            s,
        ),
        spec_optional_string(present, s) is Ok ==> is_suffix(
            spec_optional_string(present, s)->Ok_0.0,
            s,
        ),
        spec_optional_crc(present, s) is Ok ==> is_suffix(spec_optional_crc(present, s)->Ok_0.0, s),
{
    if present {
        if spec_extra_field(s) is Ok {
            let r = spec_extra_field(s)->Ok_0.0;
            assert(r =~= s.skip(s.len() - r.len()));
        }
        if spec_null_terminated_string(s) is Ok {
            let r = spec_null_terminated_string(s)->Ok_0.0;
            assert(r =~= s.skip(s.len() - r.len()));
        }
        if s.len() >= 2 {
            assert(s.skip(2) =~= s.skip(s.len() - s.skip(2).len()));
        }
    } else {
        assert(s =~= s.skip(0));
    }
}

proof fn lemma_header_leaves_suffix(s: Seq<u8>)
    requires
        spec_gzip_header(s) is Ok,
    ensures
        is_suffix(spec_gzip_header(s)->Ok_0.0, s),
        s.len() - spec_gzip_header(s)->Ok_0.0.len() >= 10,
{
    let flags = flags_of(s[3]);
    let s0 = s.skip(10);
    assert(is_suffix(s0, s));
    let r1 = spec_optional_extra_field(flags.fextra, s0);
    assert(r1 is Ok);
    let s1 = r1->Ok_0.0;
    lemma_optional_fields_leave_suffix(flags.fextra, s0);
    lemma_suffix_trans(s1, s0, s);
    let r2 = spec_optional_string(flags.fname, s1);
    assert(r2 is Ok);
    let s2 = r2->Ok_0.0;
    lemma_optional_fields_leave_suffix(flags.fname, s1);
    lemma_suffix_trans(s2, s1, s);
    let r3 = spec_optional_string(flags.fcomment, s2);
    assert(r3 is Ok);
    let s3 = r3->Ok_0.0;
    lemma_optional_fields_leave_suffix(flags.fcomment, s2);
    lemma_suffix_trans(s3, s2, s);
    let r4 = spec_optional_crc(flags.fhcrc, s3);
    assert(r4 is Ok);
    let s4 = r4->Ok_0.0;
    lemma_optional_fields_leave_suffix(flags.fhcrc, s3);
    lemma_suffix_trans(s4, s3, s);
}

/// Decoding a whole stream is decoding its header, then taking everything
/// up to the last eight bytes as the payload and decoding those eight bytes
/// as the footer; with fewer than eight bytes after the header the stream
/// is truncated.
pub proof fn lemma_file_layout(s: Seq<u8>)
    requires
        spec_gzip_header(s) is Ok,
    ensures
        ({
            let (rest, header) = spec_gzip_header(s)->Ok_0;
            let header_len = s.len() - rest.len();
            &&& 10 <= header_len <= s.len()
            &&& rest == s.skip(header_len)
            &&& rest.len() < 8 ==> spec_gzip_file(s) == Err::<
                (Seq<u8>, crate::types::GzipFileModel),
                GzipError,
            >(GzipError::TruncatedFile)
            &&& rest.len() >= 8 ==> {
                &&& spec_gzip_file(s) is Ok
                &&& spec_gzip_file(s)->Ok_0.0.len() == 0
                &&& spec_gzip_file(s)->Ok_0.1.header == header
                &&& spec_gzip_file(s)->Ok_0.1.compressed_blocks == s.subrange(header_len, s.len() - 8)
                &&& spec_gzip_file(s)->Ok_0.1.compressed_blocks.len() == s.len() - header_len - 8
                &&& spec_gzip_footer(s.skip(s.len() - 8)) == Ok::<
                    (Seq<u8>, crate::types::GzipFooter),
                    GzipError,
                >((Seq::empty(), spec_gzip_file(s)->Ok_0.1.footer))
            }
        }),
{
    lemma_header_leaves_suffix(s);
    let (rest, header) = spec_gzip_header(s)->Ok_0;
    let header_len = s.len() - rest.len();
    if rest.len() >= 8 {
        assert(rest.skip(rest.len() - 8) =~= s.skip(s.len() - 8));
        assert(rest.take(rest.len() - 8) =~= s.subrange(header_len, s.len() - 8));
        assert(s.skip(s.len() - 8).skip(8) =~= Seq::<u8>::empty());
    }
}

} // verus!
