//! The on-disk Xauthority credential format: a repeated binary record of a
//! 16-bit big-endian family code followed by four length-prefixed byte
//! strings. One forward pass turns a buffer into the ordered entry sequence;
//! end-of-input exactly at a record boundary ends the sequence normally,
//! end-of-input inside a record is a hard error, and an unknown family code
//! or a non-numeric display number fails the whole read.

mod connection_family;

pub use connection_family::ConnectionFamily;
use crate::utils::be16_val;
use crate::utils::ByteReader;
use vstd::prelude::*;
use vstd::utf8::decode_utf8;
use vstd::utf8::valid_utf8;

verus! {

pub use connection_family::spec_family_code;
pub use connection_family::spec_family_of;

/// A single entry of an Xauthority file.
#[derive(Debug, PartialEq)]
pub struct XAuthEntry {
    pub connection_family: ConnectionFamily,
    pub display_name: String,
    pub display_number: u16,
    pub protocol_name: String,
    pub protocol_data: Vec<u8>,
}

/// The mathematical value of an [`XAuthEntry`]: its text fields as character
/// sequences, its data as bytes.
pub struct XAuthEntryView {
    pub connection_family: ConnectionFamily,
    pub display_name: Seq<char>,
    pub display_number: u16,
    pub protocol_name: Seq<char>,
    pub protocol_data: Seq<u8>,
}

impl View for XAuthEntry {
    type V = XAuthEntryView;

    open spec fn view(&self) -> XAuthEntryView {
        (XAuthEntryView {
            connection_family: self.connection_family,
            display_name: self.display_name@,
            display_number: self.display_number,
            protocol_name: self.protocol_name@,
            protocol_data: self.protocol_data@,
        })
    }
}

/// An entry as laid out in the file: the raw bytes of each field, before any
/// text decoding.
pub struct XAuthEntryData {
    pub connection_family: ConnectionFamily,
    pub display_name: Seq<u8>,
    pub display_number: u16,
    pub protocol_name: Seq<u8>,
    pub protocol_data: Seq<u8>,
}

/// Why a read of an Xauthority buffer failed: the buffer ended inside a
/// record, or a record breaks the format (unknown family code, non-numeric
/// display number).
#[derive(Debug, PartialEq, Eq, Structural)]
pub enum ParseError {
    UnexpectedEof,
    InvalidFile,
}

/// What `String::from_utf8_lossy` decodes the given bytes to. The decoding
/// depends on the bytes alone.
pub uninterp spec fn lossy_of(bytes: Seq<u8>) -> Seq<char>;

/// Decodes field text permissively: invalid sequences are substituted, never
/// fatal.
///
/// Relies on `String::from_utf8_lossy`: the result is a function of the bytes
/// alone, and bytes that are valid UTF-8 decode to exactly their characters.
#[verifier::external_body]
fn lossy_string(bytes: &Vec<u8>) -> (r: String)
    ensures
        r@ == lossy_of(bytes@),
        valid_utf8(bytes@) ==> r@ == decode_utf8(bytes@),
{
    String::from_utf8_lossy(bytes.as_slice()).to_string()
}

/// Whether `b` is the byte of a decimal digit.
pub open spec fn is_digit_byte(b: u8) -> bool {
    48 <= b <= 57
}

/// Whether `s` is a non-empty run of decimal digit bytes.
pub open spec fn all_digit_bytes(s: Seq<u8>) -> bool {
    s.len() > 0 && forall|j: int| 0 <= j < s.len() ==> is_digit_byte(#[trigger] s[j])
}

/// The value of a most-significant-first run of digit bytes.
pub open spec fn dec_value_bytes(s: Seq<u8>) -> int
    decreases s.len(),
{
    if s.len() == 0 {
        0
    } else {
        dec_value_bytes(s.drop_last()) * 10 + (s.last() - 48)
    }
}

/// Whether `s` is decimal text for a value that fits an unsigned 16-bit
/// integer.
pub open spec fn valid_u16_digit_bytes(s: Seq<u8>) -> bool {
    all_digit_bytes(s) && 0 <= dec_value_bytes(s) <= 65535
}

/// Whether `b` starts with a complete length-prefixed byte string: a 16-bit
/// big-endian length `n`, then `n` bytes.
pub open spec fn spec_sized_ok(b: Seq<u8>) -> bool {
    b.len() >= 2 && b.len() >= 2 + be16_val(b.take(2))
}

/// The contents of the length-prefixed byte string at the front of `b`.
pub open spec fn spec_sized_str(b: Seq<u8>) -> Seq<u8> {
    b.subrange(2, 2 + be16_val(b.take(2)))
}

/// What follows the length-prefixed byte string at the front of `b`.
pub open spec fn spec_sized_rest(b: Seq<u8>) -> Seq<u8> {
    b.skip(2 + be16_val(b.take(2)))
}

/// The outcome of reading one record from the front of a buffer.
pub enum EntryParse {
    /// The buffer is empty: a clean end at a record boundary.
    Eof,
    /// The buffer ends inside the record.
    Truncated,
    /// The record breaks the format.
    Invalid,
    /// A complete record, and the bytes that follow it.
    Found(XAuthEntryData, Seq<u8>),
}

/// One record: a family code, then display-name, display-number (as decimal
/// text), protocol-name and protocol-data, each length-prefixed.
pub open spec fn spec_parse_entry(b: Seq<u8>) -> EntryParse {
    if b.len() == 0 {
        EntryParse::Eof
    } else if b.len() < 2 {
        EntryParse::Truncated
    } else {
        let code = be16_val(b.take(2));
        match spec_family_of(code) {
            Option::None => EntryParse::Invalid,
            Option::Some(family) => {
                let b1 = b.skip(2);
                if !spec_sized_ok(b1) {
                    EntryParse::Truncated
                } else {
                    let name = spec_sized_str(b1);
                    let b2 = spec_sized_rest(b1);
                    if !spec_sized_ok(b2) {
                        EntryParse::Truncated
                    } else {
                        let number = spec_sized_str(b2);
                        let b3 = spec_sized_rest(b2);
                        if !spec_sized_ok(b3) {
                            EntryParse::Truncated
                        } else {
                            let pname = spec_sized_str(b3);
                            let b4 = spec_sized_rest(b3);
                            if !spec_sized_ok(b4) {
                                EntryParse::Truncated
                            } else {
                                let pdata = spec_sized_str(b4);
                                let b5 = spec_sized_rest(b4);
                                if !valid_u16_digit_bytes(number) {
                                    EntryParse::Invalid
                                } else {
                                    EntryParse::Found(
                                        (XAuthEntryData {
                                            connection_family: family,
                                            display_name: name,
                                            display_number: dec_value_bytes(number) as u16,
                                            protocol_name: pname,
                                            protocol_data: pdata,
                                        }),
                                        b5,
                                    )
                                }
                            }
                        }
                    }
                }
            },
        }
    }
}

/// The outcome of reading a whole buffer.
pub enum AuthParse {
    /// Every record complete and well-formed, in file order.
    Entries(Seq<XAuthEntryData>),
    /// The buffer ends inside a record.
    Truncated,
    /// Some record breaks the format.
    Invalid,
}

/// The whole buffer, record by record until the end.
pub open spec fn spec_parse_entries(b: Seq<u8>) -> AuthParse
    decreases b.len(),
{
    match spec_parse_entry(b) {
        EntryParse::Eof => AuthParse::Entries(Seq::empty()),
        EntryParse::Truncated => AuthParse::Truncated,
        EntryParse::Invalid => AuthParse::Invalid,
        EntryParse::Found(d, rest) => if rest.len() < b.len() {
            match spec_parse_entries(rest) {
                AuthParse::Entries(es) => AuthParse::Entries(seq![d] + es),
                other => other,
            }
        } else {
            // never reached: a record holds at least its family code
            AuthParse::Truncated
        },
    }
}

/// A complete record consumes at least its family code and four length
/// prefixes, so what follows it is strictly shorter than the buffer.
pub proof fn lemma_entry_consumes(b: Seq<u8>)
    ensures
        (match spec_parse_entry(b) {
            EntryParse::Found(d, rest) => rest.len() + 10 <= b.len(),
            _ => true,
        }),
{
    match spec_parse_entry(b) {
        EntryParse::Found(d, rest) => {
            let b1 = b.skip(2);
            let b2 = spec_sized_rest(b1);
            let b3 = spec_sized_rest(b2);
            let b4 = spec_sized_rest(b3);
            assert(b2.len() <= b1.len() - 2);
            assert(b3.len() <= b2.len() - 2);
            assert(b4.len() <= b3.len() - 2);
            assert(rest == spec_sized_rest(b4));
            assert(rest.len() <= b4.len() - 2);
        },
        _ => {},
    }
}

/// Whether `n` is a record boundary of `b`: the start, or the end of a
/// complete record at a boundary of what follows it.
pub open spec fn is_record_boundary(b: Seq<u8>, n: int) -> bool
    decreases b.len(),
{
    n == 0 || (match spec_parse_entry(b) {
        EntryParse::Found(d, rest) => if rest.len() < b.len() {
            let reclen = b.len() - rest.len();
            n >= reclen && is_record_boundary(rest, n - reclen)
        } else {
            // never reached: a record holds at least its family code
            false
        },
        _ => false,
    })
}

/// Taking a prefix and then dropping bytes from its front is dropping first
/// and taking a shorter prefix.
proof fn lemma_take_skip(b: Seq<u8>, n: int, k: int)
    requires
        0 <= k <= n <= b.len(),
    ensures
        b.take(n).skip(k) =~= b.skip(k).take(n - k),
{
}

/// How cutting a buffer affects the length-prefixed byte string at its
/// front: a cut inside the string loses it, a cut after it leaves it intact
/// and cuts what follows.
proof fn lemma_sized_prefix(c: Seq<u8>, m: int)
    requires
        0 <= m <= c.len(),
        spec_sized_ok(c),
    ensures
        m < 2 + be16_val(c.take(2)) ==> !spec_sized_ok(c.take(m)),
        m >= 2 + be16_val(c.take(2)) ==> spec_sized_ok(c.take(m)) && spec_sized_str(c.take(m))
            == spec_sized_str(c) && spec_sized_rest(c.take(m)) == spec_sized_rest(c).take(
            m - (2 + be16_val(c.take(2))),
        ),
{
    let e = 2 + be16_val(c.take(2));
    if m < 2 {
        assert(c.take(m).len() < 2);
    } else {
        assert(c.take(m).take(2) =~= c.take(2));
        if m < e {
            assert(c.take(m).len() < 2 + be16_val(c.take(m).take(2)));
        } else {
            assert(spec_sized_ok(c.take(m)));
            assert(spec_sized_str(c.take(m)) =~= spec_sized_str(c));
            lemma_take_skip(c, m, e);
            assert(spec_sized_rest(c.take(m)) =~= spec_sized_rest(c).take(m - e));
        }
    }
}

/// How cutting a buffer affects its first record: a cut strictly inside the
/// record makes the truncation error, a cut at or after its end leaves the
/// record intact and cuts what follows.
#[verifier::rlimit(80)]
proof fn lemma_entry_prefix(b: Seq<u8>, n: int)
    requires
        0 < n <= b.len(),
        spec_parse_entry(b) is Found,
    ensures
        (match spec_parse_entry(b) {
            EntryParse::Found(d, rest) => {
                let reclen = b.len() - rest.len();
                &&& (n < reclen ==> spec_parse_entry(b.take(n)) == EntryParse::Truncated)
                &&& (n >= reclen ==> spec_parse_entry(b.take(n)) == EntryParse::Found(
                    d,
                    rest.take(n - reclen),
                ))
            },
            _ => true,
        }),
{
    let t = b.take(n);
    let c1 = b.skip(2);
    let e1 = 2 + be16_val(c1.take(2));
    let c2 = spec_sized_rest(c1);
    let e2 = 2 + be16_val(c2.take(2));
    let c3 = spec_sized_rest(c2);
    let e3 = 2 + be16_val(c3.take(2));
    let c4 = spec_sized_rest(c3);
    let e4 = 2 + be16_val(c4.take(2));
    let rest = spec_sized_rest(c4);
    assert(rest.len() == b.len() - 2 - e1 - e2 - e3 - e4);
    let reclen = b.len() - rest.len();
    if n < 2 {
        assert(spec_parse_entry(t) == EntryParse::Truncated);
    } else {
        assert(t.take(2) =~= b.take(2));
        lemma_take_skip(b, n, 2);
        assert(t.skip(2) == c1.take(n - 2));
        lemma_sized_prefix(c1, n - 2);
        if n - 2 < e1 {
            assert(spec_parse_entry(t) == EntryParse::Truncated);
        } else {
            lemma_sized_prefix(c2, n - 2 - e1);
            if n - 2 - e1 < e2 {
                assert(spec_parse_entry(t) == EntryParse::Truncated);
            } else {
                lemma_sized_prefix(c3, n - 2 - e1 - e2);
                if n - 2 - e1 - e2 < e3 {
                    assert(spec_parse_entry(t) == EntryParse::Truncated);
                } else {
                    lemma_sized_prefix(c4, n - 2 - e1 - e2 - e3);
                    if n - 2 - e1 - e2 - e3 < e4 {
                        assert(spec_parse_entry(t) == EntryParse::Truncated);
                    } else {
                        assert(spec_parse_entry(t) matches EntryParse::Found(d2, rest2)
                            && spec_parse_entry(b) matches EntryParse::Found(d, rest3) && d2 == d
                            && rest2 == rest3.take(n - reclen));
                    }
                }
            }
        }
    }
}

/// Cutting a well-formed buffer anywhere but at a record boundary makes a
/// buffer whose parse fails as an unexpected end of input — a prefix never
/// parses as complete unless the cut lands exactly between records.
pub proof fn lemma_truncated_fails(b: Seq<u8>, n: int)
    requires
        spec_parse_entries(b) is Entries,
        0 <= n <= b.len(),
        !is_record_boundary(b, n),
    ensures
        spec_parse_entries(b.take(n)) == AuthParse::Truncated,
    decreases b.len(),
{
    match spec_parse_entry(b) {
        EntryParse::Eof => {
            assert(n == 0);
        },
        EntryParse::Found(d, rest) => {
            lemma_entry_consumes(b);
            let reclen = b.len() - rest.len();
            lemma_entry_prefix(b, n);
            if n < reclen {
                assert(spec_parse_entry(b.take(n)) == EntryParse::Truncated);
            } else {
                assert(spec_parse_entries(rest) is Entries);
                assert(!is_record_boundary(rest, n - reclen));
                lemma_truncated_fails(rest, n - reclen);
                assert(spec_parse_entry(b.take(n)) == EntryParse::Found(d, rest.take(n - reclen)));
                assert(rest.take(n - reclen).len() < b.take(n).len());
            }
        },
        EntryParse::Truncated => {
            assert(false);
        },
        EntryParse::Invalid => {
            assert(false);
        },
    }
}

/// Whether an entry is the decoded form of a raw record: same family and
/// number, text fields decoded permissively — bytes that are valid UTF-8
/// decode to exactly their characters — and data kept as opaque bytes.
pub open spec fn entry_matches(e: XAuthEntryView, d: XAuthEntryData) -> bool {
    &&& e.connection_family == d.connection_family
    &&& e.display_name == lossy_of(d.display_name)
    &&& valid_utf8(d.display_name) ==> e.display_name == decode_utf8(d.display_name)
    &&& e.display_number == d.display_number
    &&& e.protocol_name == lossy_of(d.protocol_name)
    &&& valid_utf8(d.protocol_name) ==> e.protocol_name == decode_utf8(d.protocol_name)
    &&& e.protocol_data == d.protocol_data
}

/// A run of digit bytes has a non-negative value.
proof fn lemma_dec_value_bytes_nonneg(s: Seq<u8>)
    requires
        forall|j: int| 0 <= j < s.len() ==> is_digit_byte(#[trigger] s[j]),
    ensures
        dec_value_bytes(s) >= 0,
    decreases s.len(),
{
    if s.len() > 0 {
        assert(forall|j: int| 0 <= j < s.drop_last().len() ==> s.drop_last()[j] == s[j]);
        lemma_dec_value_bytes_nonneg(s.drop_last());
    }
}

/// Extending a run of digit bytes can only raise its value.
proof fn lemma_dec_value_bytes_prefix(s: Seq<u8>, k: int)
    requires
        forall|j: int| 0 <= j < s.len() ==> is_digit_byte(#[trigger] s[j]),
        0 <= k <= s.len(),
    ensures
        dec_value_bytes(s.take(k)) <= dec_value_bytes(s),
    decreases s.len() - k,
{
    if k == s.len() {
        assert(s.take(k) =~= s);
    } else {
        lemma_dec_value_bytes_prefix(s, k + 1);
        let t = s.take(k + 1);
        assert(t.drop_last() =~= s.take(k));
        assert(dec_value_bytes(t) == dec_value_bytes(s.take(k)) * 10 + (s[k] - 48));
        lemma_dec_value_bytes_nonneg(s.take(k));
    }
}

/// Parses a run of digit bytes as an unsigned 16-bit decimal; `None` exactly
/// when the bytes are not such a run or the value does not fit.
fn parse_u16_bytes(v: &Vec<u8>) -> (r: Option<u16>)
    ensures
        (match r {
            Option::Some(n) => valid_u16_digit_bytes(v@) && n as int == dec_value_bytes(v@),
            Option::None => !valid_u16_digit_bytes(v@),
        }),
{
    if v.len() == 0 {
        return Option::None;
    }
    let mut acc: u32 = 0;
    let mut i: usize = 0;
    while i < v.len()
        invariant
            i <= v@.len(),
            forall|j: int| 0 <= j < i ==> is_digit_byte(#[trigger] v@[j]),
            acc <= 65535,
            acc as int == dec_value_bytes(v@.take(i as int)),
        decreases v@.len() - i,
    {
        let b = v[i];
        if b < 48 || b > 57 {
            return Option::None;
        }
        proof {
            assert(v@.take(i + 1).drop_last() =~= v@.take(i as int));
        }
        acc = acc * 10 + (b - 48) as u32;
        i += 1;
        if acc > 65535 {
            proof {
                if all_digit_bytes(v@) {
                    lemma_dec_value_bytes_prefix(v@, i as int);
                }
            }
            return Option::None;
        }
    }
    proof {
        assert(v@.take(v@.len() as int) =~= v@);
    }
    Option::Some(acc as u16)
}

/// Reads one length-prefixed byte string: a 16-bit big-endian length, then
/// exactly that many bytes — never fewer.
pub fn read_sized_string(reader: &mut ByteReader) -> (r: Result<Vec<u8>, ParseError>)
    requires
        old(reader).wf(),
    ensures
        final(reader).wf(),
        spec_sized_ok(old(reader).remaining()) ==> (r matches Result::Ok(v) && v@ == spec_sized_str(
            old(reader).remaining(),
        ) && final(reader).remaining() == spec_sized_rest(old(reader).remaining())),
        !spec_sized_ok(old(reader).remaining()) ==> (r matches Result::Err(e) && e == ParseError::UnexpectedEof),
    {
    let len = match reader.read_u16_be() {
        Option::Some(n) => n,
        Option::None => {
            return Result::Err(ParseError::UnexpectedEof);
        },
    };
    match reader.read_exact(len as usize) {
        Option::Some(v) => Result::Ok(v),
        Option::None => Result::Err(ParseError::UnexpectedEof),
    }
}

/// Reads one record, or reports the clean end of the buffer.
pub fn read_entry(reader: &mut ByteReader) -> (r: Result<Option<XAuthEntry>, ParseError>)
    requires
        old(reader).wf(),
    ensures
        final(reader).wf(),
        (match spec_parse_entry(old(reader).remaining()) {
            EntryParse::Eof => (r matches Result::Ok(o) && o is None && *final(reader) == *old(
                reader,
            )),
            EntryParse::Truncated => (r matches Result::Err(e) && e == ParseError::UnexpectedEof),
            EntryParse::Invalid => (r matches Result::Err(e) && e == ParseError::InvalidFile),
            EntryParse::Found(d, rest) => (r matches Result::Ok(o) && o matches Option::Some(e)
                && entry_matches(e@, d) && final(reader).remaining() == rest),
        }),
{
    let ghost b = old(reader).remaining();
    if reader.remaining_len() == 0 {
        return Result::Ok(Option::None);
    }
    let code = match reader.read_u16_be() {
        Option::Some(c) => c,
        Option::None => {
            return Result::Err(ParseError::UnexpectedEof);
        },
    };
    let family = match ConnectionFamily::try_from(code) {
        Option::Some(f) => f,
        Option::None => {
            return Result::Err(ParseError::InvalidFile);
        },
    };
    let raw_display_name = match read_sized_string(reader) {
        Result::Ok(v) => v,
        Result::Err(e) => {
            return Result::Err(e);
        },
    };
    let raw_display_number = match read_sized_string(reader) {
        Result::Ok(v) => v,
        Result::Err(e) => {
            return Result::Err(e);
        },
    };
    let raw_protocol_name = match read_sized_string(reader) {
        Result::Ok(v) => v,
        Result::Err(e) => {
            return Result::Err(e);
        },
    };
    let protocol_data = match read_sized_string(reader) {
        Result::Ok(v) => v,
        Result::Err(e) => {
            return Result::Err(e);
        },
    };
    let display_number = match parse_u16_bytes(&raw_display_number) {
        Option::Some(n) => n,
        Option::None => {
            return Result::Err(ParseError::InvalidFile);
        },
    };
    let display_name = lossy_string(&raw_display_name);
    let protocol_name = lossy_string(&raw_protocol_name);
    let entry = XAuthEntry {
        connection_family: family,
        display_name,
        display_number,
        protocol_name,
        protocol_data,
    };
    Result::Ok(Option::Some(entry))
}

/// Parses a whole Xauthority buffer into its ordered entry sequence: every
/// record complete and well-formed, or the read fails with the kind the
/// first offending record gives.
pub fn from_reader(data: &[u8]) -> (r: Result<Vec<XAuthEntry>, ParseError>)
    ensures
        (match spec_parse_entries(data@) {
            AuthParse::Entries(ds) => (r matches Result::Ok(es) && es@.len() == ds.len() && (forall|
                i: int,
            |
                0 <= i < ds.len() ==> entry_matches(#[trigger] es@[i]@, ds[i]))),
            AuthParse::Truncated => (r matches Result::Err(e) && e == ParseError::UnexpectedEof),
            AuthParse::Invalid => (r matches Result::Err(e) && e == ParseError::InvalidFile),
        }),
{
    let mut reader = ByteReader::new(vstd::slice::slice_to_vec(data));
    let mut entries: Vec<XAuthEntry> = Vec::new();
    let ghost mut done: Seq<XAuthEntryData> = Seq::empty();
    loop
        invariant
            reader.wf(),
            entries@.len() == done.len(),
            forall|i: int| 0 <= i < done.len() ==> entry_matches(#[trigger] entries@[i]@, done[i]),
            spec_parse_entries(data@) == (match spec_parse_entries(reader.remaining()) {
                AuthParse::Entries(ds2) => AuthParse::Entries(done + ds2),
                other => other,
            }),
        decreases reader.remaining().len(),
    {
        let ghost rem = reader.remaining();
        let ghost done_before = done;
        match read_entry(&mut reader) {
            Result::Ok(Option::Some(e)) => {
                proof {
                    lemma_entry_consumes(rem);
                    match spec_parse_entry(rem) {
                        EntryParse::Found(d0, rest0) => {
                            done = done + seq![d0];
                            match spec_parse_entries(rest0) {
                                AuthParse::Entries(es2) => {
                                    assert(done_before + (seq![d0] + es2) =~= done + es2);
                                },
                                _ => {},
                            }
                        },
                        _ => {
                            assert(false);
                        },
                    }
                }
                entries.push(e);
            },
            Result::Ok(Option::None) => {
                proof {
                    assert(spec_parse_entries(rem) == AuthParse::Entries(Seq::<
                        XAuthEntryData,
                    >::empty()));
                    assert(done + Seq::<XAuthEntryData>::empty() =~= done);
                }
                return Result::Ok(entries);
            },
            Result::Err(e2) => {
                return Result::Err(e2);
            },
        }
    }
}

} // verus!
