//! Reading the protobuf wire format of annotation payloads into tokens: one token for
//! each field that the annotation's schema knows, in the order of the bytes.
use vstd::prelude::*;
use vstd::slice::{slice_subrange, slice_to_vec};
use vstd::utf8::{decode_utf8, valid_utf8};

verus! {

/// The value of a little-endian base-128 group of bytes, seven bits from each.
pub open spec fn varint_value(s: Seq<u8>) -> nat
    decreases s.len(),
{
    if s.len() == 0 {
        0
    } else {
        (s[0] % 128) as nat + 128 * varint_value(s.drop_first())
    }
}

/// Length of the varint at the start of `s`: up to and including the first byte below 0x80.
pub open spec fn varint_len(s: Seq<u8>) -> Option<nat>
    decreases s.len(),
{
    if s.len() == 0 {
        None
    } else if s[0] < 128 {
        Some(1)
    } else {
        match varint_len(s.drop_first()) {
            Some(n) => Some(n + 1),
            None => None,
        }
    }
}

/// A 64-bit varint at the start of `s`, with its length: at most ten bytes, the tenth no
/// more than 1.
pub open spec fn varint64_at(s: Seq<u8>) -> Option<(u64, nat)> {
    match varint_len(s) {
        Some(n) => if n < 10 || (n == 10 && s[9] <= 1) {
            Some((varint_value(s.take(n as int)) as u64, n))
        } else {
            None
        },
        None => None,
    }
}

/// A 32-bit varint at the start of `s`, with its length: at most five bytes, the fifth no
/// more than 15.
pub open spec fn varint32_at(s: Seq<u8>) -> Option<(u32, nat)> {
    match varint_len(s) {
        Some(n) => if n < 5 || (n == 5 && s[4] <= 15) {
            Some((varint_value(s.take(n as int)) as u32, n))
        } else {
            None
        },
        None => None,
    }
}

/// A field tag at the start of `s`: field number, wire type and the tag's length. The wire
/// type must be one of 0 to 5 and the field number not 0.
pub open spec fn tag_at(s: Seq<u8>) -> Option<(u32, u32, nat)> {
    match varint32_at(s) {
        Some((t, n)) => if t % 8 <= 5 && t / 8 != 0 && 0 < n <= s.len() {
            Some(((t / 8) as u32, (t % 8) as u32, n))
        } else {
            None
        },
        None => None,
    }
}

/// Number of bytes that the wire format gives to a value of the wire type at the start of
/// `s`, or `None` where no well-formed value stands there.
pub uninterp spec fn field_extent(s: Seq<u8>, wire_type: u32) -> Option<nat>;

proof fn lemma_varint_len_bound(s: Seq<u8>)
    ensures
        varint_len(s) matches Some(n) ==> 1 <= n <= s.len(),
    decreases s.len(),
{
    if s.len() > 0 {
        lemma_varint_len_bound(s.drop_first());
    }
}

/// Relies on protobuf's CodedInputStream::read_raw_varint64, on a stream over
/// `bytes[pos..]`: the value and the number of bytes read, or an error where no 64-bit
/// varint stands there.
#[verifier::external_body]
fn read_varint64(bytes: &[u8], pos: usize) -> (r: Option<(u64, usize)>)
    requires
        pos <= bytes@.len(),
    ensures
        match varint64_at(bytes@.skip(pos as int)) {
            Some((v, n)) => r == Some((v, n as usize)),
            None => r is None,
        },
{
    let mut stream = protobuf::CodedInputStream::from_bytes(&bytes[pos..]);
    match stream.read_raw_varint64() {
        Ok(v) => Some((v, stream.pos() as usize)),
        Err(_) => None,
    }
}

/// Relies on protobuf's CodedInputStream::read_raw_varint32, on a stream over
/// `bytes[pos..]`: the value and the number of bytes read, or an error where no 32-bit
/// varint stands there.
#[verifier::external_body]
fn read_varint32(bytes: &[u8], pos: usize) -> (r: Option<(u32, usize)>)
    requires
        pos <= bytes@.len(),
    ensures
        match varint32_at(bytes@.skip(pos as int)) {
            Some((v, n)) => r == Some((v, n as usize)),
            None => r is None,
        },
{
    let mut stream = protobuf::CodedInputStream::from_bytes(&bytes[pos..]);
    match stream.read_raw_varint32() {
        Ok(v) => Some((v, stream.pos() as usize)),
        Err(_) => None,
    }
}

/// Relies on protobuf's CodedInputStream::skip_field, on a stream over `bytes[pos..]`: the
/// number of bytes that the value of the given wire type takes, or an error where it is
/// malformed. It never reads past the end of the bytes.
#[verifier::external_body]
fn skip_field(bytes: &[u8], pos: usize, wire_type: u32) -> (r: Option<usize>)
    requires
        pos <= bytes@.len(),
        wire_type <= 5,
    ensures
        r matches Some(n) ==> pos + n <= bytes@.len() && field_extent(
            bytes@.skip(pos as int),
            wire_type,
        ) == Some(n as nat),
        r is None ==> field_extent(bytes@.skip(pos as int), wire_type) is None,
{
    let mut stream = protobuf::CodedInputStream::from_bytes(&bytes[pos..]);
    match protobuf::rt::WireType::new(wire_type) {
        Some(wt) => match stream.skip_field(wt) {
            Ok(()) => Some(stream.pos() as usize),
            Err(_) => None,
        },
        None => None,
    }
}

/// Relies on std's str::from_utf8: the text of the bytes where they are valid UTF-8.
#[verifier::external_body]
fn utf8_text(bytes: &[u8]) -> (r: Option<String>)
    ensures
        r is Some <==> valid_utf8(bytes@),
        r matches Some(s) ==> s@ == decode_utf8(bytes@),
{
    std::str::from_utf8(bytes).ok().map(|s| s.to_string())
}

/// How the schema of an annotation record reads a field.
#[derive(Clone, Copy, PartialEq, Eq, Structural, Debug)]
pub enum FieldKind {
    /// Not in the schema, or read with another wire type: skipped.
    Skipped,
    /// `uint32`, a 32-bit varint.
    UInt32,
    /// `int32` or an enum, a 64-bit varint that must fit in 32 signed bits.
    Int32,
    /// `string`, length-delimited UTF-8.
    Text,
    /// A nested message, length-delimited.
    Nested,
}

/// A field value read from the wire.
pub enum WireValue {
    UInt32(u32),
    Int32(i32),
    Text(String),
    Nested(Vec<u8>),
}

/// The mathematical form of a field value read from the wire.
pub ghost enum WireValueView {
    UInt32(u32),
    Int32(i32),
    Text(Seq<char>),
    Nested(Seq<u8>),
}

impl View for WireValue {
    type V = WireValueView;

    open spec fn view(&self) -> WireValueView {
        match self {
            WireValue::UInt32(v) => WireValueView::UInt32(*v),
            WireValue::Int32(v) => WireValueView::Int32(*v),
            WireValue::Text(s) => WireValueView::Text(s@),
            WireValue::Nested(b) => WireValueView::Nested(b@),
        }
    }
}

/// One field of a record, as read from the wire.
pub struct Token {
    pub number: u32,
    pub value: WireValue,
}

pub ghost struct TokenView {
    pub number: u32,
    pub value: WireValueView,
}

impl View for Token {
    type V = TokenView;

    open spec fn view(&self) -> TokenView {
        TokenView { number: self.number, value: self.value@ }
    }
}

/// The view of a value that may be absent.
pub open spec fn value_view(x: Option<WireValue>) -> Option<WireValueView> {
    match x {
        Some(v) => Some(v@),
        None => None,
    }
}

/// The views of a sequence of tokens.
pub open spec fn token_views(ts: Seq<Token>) -> Seq<TokenView> {
    ts.map_values(|t: Token| t@)
}

/// The signed value that the two's complement reading of `v` gives.
pub open spec fn as_signed(v: u64) -> int {
    if v < 0x8000_0000_0000_0000 {
        v as int
    } else {
        v - 0x1_0000_0000_0000_0000
    }
}

/// The wire type that a field kind is read with.
pub open spec fn wire_type_of(k: FieldKind) -> u32 {
    match k {
        FieldKind::UInt32 | FieldKind::Int32 => 0,
        _ => 2,
    }
}

/// The value of a field of kind `k` and wire type `wt` at the start of `s`, with the number
/// of bytes it takes; no value where the field is skipped. A length-delimited value must
/// end within the bytes.
pub open spec fn field_at(s: Seq<u8>, k: FieldKind, wt: u32) -> Option<
    (Option<WireValueView>, nat),
> {
    if k != FieldKind::Skipped && wt == wire_type_of(k) {
        match k {
            FieldKind::UInt32 => match varint32_at(s) {
                Some((v, n)) => Some((Some(WireValueView::UInt32(v)), n)),
                None => None,
            },
            FieldKind::Int32 => match varint64_at(s) {
                Some((v, n)) => if -0x8000_0000 <= as_signed(v) < 0x8000_0000 {
                    Some((Some(WireValueView::Int32(as_signed(v) as i32)), n))
                } else {
                    None
                },
                None => None,
            },
            FieldKind::Text => match varint32_at(s) {
                Some((len, n)) => if n + len <= s.len() && valid_utf8(
                    s.subrange(n as int, n + len),
                ) {
                    Some(
                        (
                            Some(WireValueView::Text(decode_utf8(s.subrange(n as int, n + len)))),
                            (n + len) as nat,
                        ),
                    )
                } else {
                    None
                },
                None => None,
            },
            _ => match varint64_at(s) {
                Some((len, n)) => if n + len <= s.len() {
                    Some((Some(WireValueView::Nested(s.subrange(n as int, n + len))), (n + len) as nat))
                } else {
                    None
                },
                None => None,
            },
        }
    } else {
        match field_extent(s, wt) {
            Some(m) => if m <= s.len() {
                Some((None, m))
            } else {
                None
            },
            None => None,
        }
    }
}

/// The annotation records, and nested records inside them.
#[derive(Clone, Copy, PartialEq, Eq, Structural, Debug)]
pub enum Record {
    /// Field annotation: 1 fixed point (nested), 2 unit, 3 description.
    FieldOptions,
    /// Fixed-point encoding, one of: 1 unsigned, 2 unsigned with shift (both nested).
    FixedPoint,
    /// Unsigned fixed point: 1 width, 2 fraction bits.
    UFix,
    /// Unsigned fixed point with shift: 1 width, 2 fraction bits, 3 shift.
    UFixQ,
    /// Message or method annotation: 1 id.
    Ident,
    /// Service annotation: 1 id, 2 service kind, 3 identifier, 4 display name.
    ServiceOptions,
}

/// The kind of field number `num` in record `rec`.
pub open spec fn kind_of(rec: Record, num: u32) -> FieldKind {
    match rec {
        Record::FieldOptions => if num == 1 {
            FieldKind::Nested
        } else if num == 2 || num == 3 {
            FieldKind::Text
        } else {
            FieldKind::Skipped
        },
        Record::FixedPoint => if num == 1 || num == 2 {
            FieldKind::Nested
        } else {
            FieldKind::Skipped
        },
        Record::UFix => if num == 1 || num == 2 {
            FieldKind::UInt32
        } else {
            FieldKind::Skipped
        },
        Record::UFixQ => if num == 1 || num == 2 {
            FieldKind::UInt32
        } else if num == 3 {
            FieldKind::Int32
        } else {
            FieldKind::Skipped
        },
        Record::Ident => if num == 1 {
            FieldKind::UInt32
        } else {
            FieldKind::Skipped
        },
        Record::ServiceOptions => if num == 1 {
            FieldKind::UInt32
        } else if num == 2 {
            FieldKind::Int32
        } else if num == 3 || num == 4 {
            FieldKind::Text
        } else {
            FieldKind::Skipped
        },
    }
}

fn field_kind(rec: Record, num: u32) -> (k: FieldKind)
    ensures
        k == kind_of(rec, num),
{
    match rec {
        Record::FieldOptions => if num == 1 {
            FieldKind::Nested
        } else if num == 2 || num == 3 {
            FieldKind::Text
        } else {
            FieldKind::Skipped
        },
        Record::FixedPoint => if num == 1 || num == 2 {
            FieldKind::Nested
        } else {
            FieldKind::Skipped
        },
        Record::UFix => if num == 1 || num == 2 {
            FieldKind::UInt32
        } else {
            FieldKind::Skipped
        },
        Record::UFixQ => if num == 1 || num == 2 {
            FieldKind::UInt32
        } else if num == 3 {
            FieldKind::Int32
        } else {
            FieldKind::Skipped
        },
        Record::Ident => if num == 1 {
            FieldKind::UInt32
        } else {
            FieldKind::Skipped
        },
        Record::ServiceOptions => if num == 1 {
            FieldKind::UInt32
        } else if num == 2 {
            FieldKind::Int32
        } else if num == 3 || num == 4 {
            FieldKind::Text
        } else {
            FieldKind::Skipped
        },
    }
}

/// The tokens of the known fields of record `rec` in the bytes `s`, in order, or `None`
/// where the bytes are malformed.
pub open spec fn scan(s: Seq<u8>, rec: Record) -> Option<Seq<TokenView>>
    decreases s.len(),
{
    if s.len() == 0 {
        Some(seq![])
    } else {
        match tag_at(s) {
            None => None,
            Some((num, wt, n)) => {
                let rest = s.skip(n as int);
                match field_at(rest, kind_of(rec, num), wt) {
                    None => None,
                    Some((v, m)) => if n <= s.len() && m <= rest.len() {
                        match scan(rest.skip(m as int), rec) {
                            None => None,
                            Some(ts) => match v {
                                Some(value) => Some(seq![TokenView { number: num, value }] + ts),
                                None => Some(ts),
                            },
                        }
                    } else {
                        None
                    },
                }
            },
        }
    }
}

proof fn lemma_scan_step(
    s: Seq<u8>,
    rec: Record,
    num: u32,
    wt: u32,
    n: nat,
    v: Option<WireValueView>,
    m: nat,
)
    requires
        s.len() > 0,
        tag_at(s) == Some((num, wt, n)),
        field_at(s.skip(n as int), kind_of(rec, num), wt) == Some((v, m)),
        n <= s.len(),
        m <= s.len() - n,
    ensures
        scan(s, rec) == match scan(s.skip(n as int).skip(m as int), rec) {
            None => None,
            Some(ts) => match v {
                Some(value) => Some(seq![TokenView { number: num, value }] + ts),
                None => Some(ts),
            },
        },
{
}

fn read_tag(bytes: &[u8], pos: usize) -> (r: Option<(u32, u32, usize)>)
    requires
        pos <= bytes@.len(),
    ensures
        match tag_at(bytes@.skip(pos as int)) {
            Some((num, wt, n)) => r == Some((num, wt, n as usize)),
            None => r is None,
        },
{
    proof {
        lemma_varint_len_bound(bytes@.skip(pos as int));
    }
    match read_varint32(bytes, pos) {
        Some((t, n)) => if t % 8 <= 5 && t / 8 != 0 && 0 < n && n <= bytes.len() - pos {
            Some((t / 8, t % 8, n))
        } else {
            None
        },
        None => None,
    }
}

/// Reads the value of a field of kind `k` and wire type `wt` at `pos`.
fn read_field(bytes: &[u8], pos: usize, k: FieldKind, wt: u32) -> (r: Option<
    (Option<WireValue>, usize),
>)
    requires
        pos <= bytes@.len(),
        wt <= 5,
    ensures
        match field_at(bytes@.skip(pos as int), k, wt) {
            Some((v, m)) => r matches Some((x, n)) && n == m && value_view(x) == v,
            None => r is None,
        },
        r matches Some((_, n)) ==> pos + n <= bytes@.len(),
{
    let ghost s = bytes@.skip(pos as int);
    proof {
        lemma_varint_len_bound(s);
    }
    let len = bytes.len();
    if k != FieldKind::Skipped && wt == (if k == FieldKind::UInt32 || k == FieldKind::Int32 {
        0
    } else {
        2
    }) {
        match k {
            FieldKind::UInt32 => match read_varint32(bytes, pos) {
                Some((v, n)) => Some((Some(WireValue::UInt32(v)), n)),
                None => None,
            },
            FieldKind::Int32 => match read_varint64(bytes, pos) {
                Some((v, n)) => if v < 0x8000_0000 {
                    assert(as_signed(v) == v);
                    Some((Some(WireValue::Int32(v as i32)), n))
                } else if v >= 0xFFFF_FFFF_8000_0000 {
                    let d = (v - 0xFFFF_FFFF_8000_0000) as i32;
                    assert(as_signed(v) == i32::MIN + d);
                    Some((Some(WireValue::Int32(i32::MIN + d)), n))
                } else {
                    None
                },
                None => None,
            },
            FieldKind::Text => match read_varint32(bytes, pos) {
                Some((l, n)) => if (l as usize) <= len - pos - n {
                    let start = pos + n;
                    let end = start + l as usize;
                    let body = slice_subrange(bytes, start, end);
                    proof {
                        assert(body@ =~= s.subrange(n as int, n + l));
                    }
                    match utf8_text(body) {
                        Some(t) => Some((Some(WireValue::Text(t)), n + l as usize)),
                        None => None,
                    }
                } else {
                    None
                },
                None => None,
            },
            _ => match read_varint64(bytes, pos) {
                Some((l, n)) => if l <= (len - pos - n) as u64 {
                    let start = pos + n;
                    let end = start + l as usize;
                    let body = slice_subrange(bytes, start, end);
                    proof {
                        assert(body@ =~= s.subrange(n as int, n + l));
                    }
                    Some((Some(WireValue::Nested(slice_to_vec(body))), n + l as usize))
                } else {
                    None
                },
                None => None,
            },
        }
    } else {
        match skip_field(bytes, pos, wt) {
            Some(m) => Some((None, m)),
            None => None,
        }
    }
}

/// Reads the known fields of record `rec` from `bytes`.
#[verifier::rlimit(50)]
pub fn scan_record(bytes: &[u8], rec: Record) -> (r: Option<Vec<Token>>)
    ensures
        match scan(bytes@, rec) {
            Some(ts) => r matches Some(v) && token_views(v@) == ts,
            None => r is None,
        },
{
    let len = bytes.len();
    let mut pos: usize = 0;
    let mut tokens: Vec<Token> = Vec::new();
    assert(bytes@.skip(0) =~= bytes@);
    while pos < len
        invariant
            len == bytes@.len(),
            pos <= len,
            scan(bytes@, rec) == match scan(bytes@.skip(pos as int), rec) {
                Some(t) => Some(token_views(tokens@) + t),
                None => None,
            },
        decreases len - pos,
    {
        let ghost s = bytes@.skip(pos as int);
        let (num, wt, n) = match read_tag(bytes, pos) {
            Some(t) => t,
            None => {
                return None;
            },
        };
        let ghost rest = s.skip(n as int);
        assert(bytes@.skip(pos + n) =~= rest);
        let k = field_kind(rec, num);
        let (v, m) = match read_field(bytes, pos + n, k, wt) {
            Some(x) => x,
            None => {
                return None;
            },
        };
        let ghost tail = scan(rest.skip(m as int), rec);
        proof {
            assert(bytes@.skip(pos + n + m) =~= rest.skip(m as int));
            lemma_scan_step(s, rec, num, wt, n as nat, value_view(v), m as nat);
        }
        let ghost old_tokens = tokens@;
        match v {
            Some(value) => {
                tokens.push(Token { number: num, value });
                proof {
                    assert(token_views(tokens@) =~= token_views(old_tokens) + seq![
                        tokens@.last()@,
                    ]);
                    if tail is Some {
                        assert(token_views(tokens@) + tail->0 =~= token_views(old_tokens) + (seq![
                            tokens@.last()@,
                        ] + tail->0));
                    }
                }
            },
            None => {},
        }
        pos = pos + n + m;
    }
    proof {
        assert(bytes@.skip(pos as int) =~= seq![]);
        assert(token_views(tokens@) + seq![] =~= token_views(tokens@));
    }
    Some(tokens)
}

} // verus!
