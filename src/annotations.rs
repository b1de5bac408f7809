//! Vendor annotations: typed records decoded from the payloads that descriptor nodes
//! carry as unrecognized fields at one reserved field number.
use vstd::prelude::*;
use crate::defs::FixedPointType;
use crate::raw::{UnknownField, UnknownFieldView, UnknownValue, UnknownValueView, unknown_views};
use crate::wire::{Record, Token, TokenView, WireValue, WireValueView, scan, scan_record, token_views};

verus! {

/// The field number at which vendor annotations are attached.
pub const ANNOTATION_FIELD: u32 = 1020;

/// Service kind of a parameter service in the service annotation; any other kind is a
/// plain service.
pub const SERVICE_KIND_PARAMETERS: i32 = 1;

/// An annotation payload is malformed.
#[derive(Clone, Copy, PartialEq, Eq, Structural, Debug)]
pub struct DecodeError;

/// The last value of `uint32` field `num` in the tokens, or `d` where there is none.
pub open spec fn last_u32(ts: Seq<TokenView>, num: u32, d: u32) -> u32
    decreases ts.len(),
{
    if ts.len() == 0 {
        d
    } else if ts.last().number == num && ts.last().value is UInt32 {
        ts.last().value->UInt32_0
    } else {
        last_u32(ts.drop_last(), num, d)
    }
}

/// The last value of `int32` field `num` in the tokens, or 0 where there is none.
pub open spec fn last_i32(ts: Seq<TokenView>, num: u32) -> i32
    decreases ts.len(),
{
    if ts.len() == 0 {
        0
    } else if ts.last().number == num && ts.last().value is Int32 {
        ts.last().value->Int32_0
    } else {
        last_i32(ts.drop_last(), num)
    }
}

/// The last value of `string` field `num` in the tokens, or the empty string.
pub open spec fn last_text(ts: Seq<TokenView>, num: u32) -> Seq<char>
    decreases ts.len(),
{
    if ts.len() == 0 {
        seq![]
    } else if ts.last().number == num && ts.last().value is Text {
        ts.last().value->Text_0
    } else {
        last_text(ts.drop_last(), num)
    }
}

/// An unsigned fixed-point record.
pub open spec fn ufix_of(b: Seq<u8>) -> Option<FixedPointType> {
    match scan(b, Record::UFix) {
        Some(ts) => Some(FixedPointType::UFix(last_u32(ts, 1, 0), last_u32(ts, 2, 0))),
        None => None,
    }
}

/// An unsigned fixed-point record with shift.
pub open spec fn ufixq_of(b: Seq<u8>) -> Option<FixedPointType> {
    match scan(b, Record::UFixQ) {
        Some(ts) => Some(
            FixedPointType::UFixQ(last_u32(ts, 1, 0), last_u32(ts, 2, 0), last_i32(ts, 3)),
        ),
        None => None,
    }
}

/// The encoding that the tokens of a fixed-point record select: each nested record is
/// decoded, and the last one wins.
pub open spec fn fix_fold(ts: Seq<TokenView>) -> Option<Option<FixedPointType>>
    decreases ts.len(),
{
    if ts.len() == 0 {
        Some(None)
    } else {
        match fix_fold(ts.drop_last()) {
            None => None,
            Some(prev) => {
                let t = ts.last();
                match t.value {
                    WireValueView::Nested(b) => if t.number == 1 {
                        match ufix_of(b) {
                            Some(x) => Some(Some(x)),
                            None => None,
                        }
                    } else if t.number == 2 {
                        match ufixq_of(b) {
                            Some(x) => Some(Some(x)),
                            None => None,
                        }
                    } else {
                        Some(prev)
                    },
                    _ => Some(prev),
                }
            },
        }
    }
}

/// A fixed-point record: the encoding it selects, if any; `None` where it is malformed.
pub open spec fn fixed_point_of(b: Seq<u8>) -> Option<Option<FixedPointType>> {
    match scan(b, Record::FixedPoint) {
        Some(ts) => fix_fold(ts),
        None => None,
    }
}

/// The field annotation: fixed-point encoding, unit and description (empty where unset).
#[derive(Debug, PartialEq)]
pub struct FieldOptions {
    pub fixed_point: Option<FixedPointType>,
    pub unit: String,
    pub description: String,
}

pub ghost struct FieldOptionsView {
    pub fixed_point: Option<FixedPointType>,
    pub unit: Seq<char>,
    pub description: Seq<char>,
}

impl View for FieldOptions {
    type V = FieldOptionsView;

    open spec fn view(&self) -> FieldOptionsView {
        FieldOptionsView {
            fixed_point: self.fixed_point,
            unit: self.unit@,
            description: self.description@,
        }
    }
}

/// The fixed-point encoding that the tokens of a field annotation give: every nested
/// fixed-point record is decoded, and the last one replaces the others.
pub open spec fn field_fix_fold(ts: Seq<TokenView>) -> Option<Option<FixedPointType>>
    decreases ts.len(),
{
    if ts.len() == 0 {
        Some(None)
    } else {
        match field_fix_fold(ts.drop_last()) {
            None => None,
            Some(prev) => {
                let t = ts.last();
                match t.value {
                    WireValueView::Nested(b) => if t.number == 1 {
                        fixed_point_of(b)
                    } else {
                        Some(prev)
                    },
                    _ => Some(prev),
                }
            },
        }
    }
}

/// The field annotation that the tokens give.
pub open spec fn field_options_of(ts: Seq<TokenView>) -> Option<FieldOptionsView> {
    match field_fix_fold(ts) {
        Some(fp) => Some(
            FieldOptionsView {
                fixed_point: fp,
                unit: last_text(ts, 2),
                description: last_text(ts, 3),
            },
        ),
        None => None,
    }
}

/// The service annotation: id, service kind, identifier and display name.
#[derive(Debug, PartialEq)]
pub struct ServiceOptions {
    pub id: u32,
    pub kind: i32,
    pub identifier: String,
    pub display_name: String,
}

pub ghost struct ServiceOptionsView {
    pub id: u32,
    pub kind: i32,
    pub identifier: Seq<char>,
    pub display_name: Seq<char>,
}

impl View for ServiceOptions {
    type V = ServiceOptionsView;

    open spec fn view(&self) -> ServiceOptionsView {
        ServiceOptionsView {
            id: self.id,
            kind: self.kind,
            identifier: self.identifier@,
            display_name: self.display_name@,
        }
    }
}

/// The service annotation that the tokens give.
pub open spec fn service_options_of(ts: Seq<TokenView>) -> ServiceOptionsView {
    ServiceOptionsView {
        id: last_u32(ts, 1, 0),
        kind: last_i32(ts, 2),
        identifier: last_text(ts, 3),
        display_name: last_text(ts, 4),
    }
}

/// The annotation payloads among unrecognized fields: the length-delimited values at the
/// reserved field number, in order.
pub open spec fn payloads(opts: Seq<UnknownFieldView>) -> Seq<Seq<u8>>
    decreases opts.len(),
{
    if opts.len() == 0 {
        seq![]
    } else {
        let u = opts.last();
        let rest = payloads(opts.drop_last());
        if u.number == ANNOTATION_FIELD && u.value is LengthDelimited {
            rest.push(u.value->LengthDelimited_0)
        } else {
            rest
        }
    }
}

/// The tokens of record `rec` in all payloads, one after the other; `None` where one of
/// them is malformed. Later payloads merge into what the earlier ones gave.
pub open spec fn scan_payloads(ps: Seq<Seq<u8>>, rec: Record) -> Option<Seq<TokenView>>
    decreases ps.len(),
{
    if ps.len() == 0 {
        Some(seq![])
    } else {
        match (scan_payloads(ps.drop_last(), rec), scan(ps.last(), rec)) {
            (Some(a), Some(b)) => Some(a + b),
            _ => None,
        }
    }
}

/// The annotation tokens of record `rec` on a node: `Ok(None)` where the node carries no
/// annotation, an error where a payload is malformed.
pub open spec fn annotation_tokens(opts: Seq<UnknownFieldView>, rec: Record) -> Result<
    Option<Seq<TokenView>>,
    DecodeError,
> {
    match scan_payloads(payloads(opts), rec) {
        None => Err(DecodeError),
        Some(ts) => if payloads(opts).len() == 0 {
            Ok(None)
        } else {
            Ok(Some(ts))
        },
    }
}

/// The field annotation on a node.
pub open spec fn field_annotation(opts: Seq<UnknownFieldView>) -> Result<
    Option<FieldOptionsView>,
    DecodeError,
> {
    match annotation_tokens(opts, Record::FieldOptions) {
        Err(e) => Err(e),
        Ok(None) => Ok(None),
        Ok(Some(ts)) => match field_options_of(ts) {
            Some(o) => Ok(Some(o)),
            None => Err(DecodeError),
        },
    }
}

/// The id annotation (of a message or a method) on a node.
pub open spec fn id_annotation(opts: Seq<UnknownFieldView>) -> Result<Option<u32>, DecodeError> {
    match annotation_tokens(opts, Record::Ident) {
        Err(e) => Err(e),
        Ok(None) => Ok(None),
        Ok(Some(ts)) => Ok(Some(last_u32(ts, 1, 0))),
    }
}

/// The service annotation on a node.
pub open spec fn service_annotation(opts: Seq<UnknownFieldView>) -> Result<
    Option<ServiceOptionsView>,
    DecodeError,
> {
    match annotation_tokens(opts, Record::ServiceOptions) {
        Err(e) => Err(e),
        Ok(None) => Ok(None),
        Ok(Some(ts)) => Ok(Some(service_options_of(ts))),
    }
}

fn find_last_u32(ts: &Vec<Token>, num: u32, d: u32) -> (r: u32)
    ensures
        r == last_u32(token_views(ts@), num, d),
{
    let mut r = d;
    let mut i: usize = 0;
    while i < ts.len()
        invariant
            i <= ts@.len(),
            r == last_u32(token_views(ts@).take(i as int), num, d),
        decreases ts@.len() - i,
    {
        proof {
            assert(token_views(ts@).take(i + 1).drop_last() =~= token_views(ts@).take(i as int));
        }
        let t = &ts[i];
        match &t.value {
            WireValue::UInt32(v) => if t.number == num {
                r = *v;
            },
            _ => {},
        }
        i = i + 1;
    }
    assert(token_views(ts@).take(i as int) =~= token_views(ts@));
    r
}

fn find_last_i32(ts: &Vec<Token>, num: u32) -> (r: i32)
    ensures
        r == last_i32(token_views(ts@), num),
{
    let mut r: i32 = 0;
    let mut i: usize = 0;
    while i < ts.len()
        invariant
            i <= ts@.len(),
            r == last_i32(token_views(ts@).take(i as int), num),
        decreases ts@.len() - i,
    {
        proof {
            assert(token_views(ts@).take(i + 1).drop_last() =~= token_views(ts@).take(i as int));
        }
        let t = &ts[i];
        match &t.value {
            WireValue::Int32(v) => if t.number == num {
                r = *v;
            },
            _ => {},
        }
        i = i + 1;
    }
    assert(token_views(ts@).take(i as int) =~= token_views(ts@));
    r
}

fn find_last_text(ts: &Vec<Token>, num: u32) -> (r: String)
    ensures
        r@ == last_text(token_views(ts@), num),
{
    let mut r = String::new();
    let mut i: usize = 0;
    while i < ts.len()
        invariant
            i <= ts@.len(),
            r@ == last_text(token_views(ts@).take(i as int), num),
        decreases ts@.len() - i,
    {
        proof {
            assert(token_views(ts@).take(i + 1).drop_last() =~= token_views(ts@).take(i as int));
        }
        let t = &ts[i];
        match &t.value {
            WireValue::Text(v) => if t.number == num {
                r = v.clone();
            },
            _ => {},
        }
        i = i + 1;
    }
    assert(token_views(ts@).take(i as int) =~= token_views(ts@));
    r
}

/// Decodes an unsigned fixed-point record, with its shift where `with_shift`.
fn decode_fix_params(b: &[u8], with_shift: bool) -> (r: Option<FixedPointType>)
    ensures
        r == (if with_shift {
            ufixq_of(b@)
        } else {
            ufix_of(b@)
        }),
{
    let rec = if with_shift {
        Record::UFixQ
    } else {
        Record::UFix
    };
    match scan_record(b, rec) {
        None => None,
        Some(ts) => {
            let w = find_last_u32(&ts, 1, 0);
            let f = find_last_u32(&ts, 2, 0);
            if with_shift {
                let q = find_last_i32(&ts, 3);
                Some(FixedPointType::UFixQ(w, f, q))
            } else {
                Some(FixedPointType::UFix(w, f))
            }
        },
    }
}

/// Decodes a fixed-point record: the encoding it selects, if any.
fn decode_fixed_point(b: &[u8]) -> (r: Option<Option<FixedPointType>>)
    ensures
        r == fixed_point_of(b@),
{
    let ts = match scan_record(b, Record::FixedPoint) {
        None => {
            return None;
        },
        Some(ts) => ts,
    };
    let ghost tv = token_views(ts@);
    let mut acc: Option<FixedPointType> = None;
    let mut i: usize = 0;
    while i < ts.len()
        invariant
            tv == token_views(ts@),
            i <= ts@.len(),
            fix_fold(tv.take(i as int)) == Some(acc),
            fixed_point_of(b@) == fix_fold(tv),
        decreases ts@.len() - i,
    {
        proof {
            assert(tv.take(i + 1).drop_last() =~= tv.take(i as int));
        }
        let t = &ts[i];
        match &t.value {
            WireValue::Nested(nb) => {
                if t.number == 1 || t.number == 2 {
                    match decode_fix_params(nb.as_slice(), t.number == 2) {
                        Some(x) => {
                            acc = Some(x);
                        },
                        None => {
                            proof {
                                lemma_fix_fold_fails(tv, i as int + 1);
                                assert(tv.take(ts@.len() as int) =~= tv);
                            }
                            return None;
                        },
                    }
                }
            },
            _ => {},
        }
        i = i + 1;
    }
    assert(tv.take(i as int) =~= tv);
    Some(acc)
}

proof fn lemma_fix_fold_fails(ts: Seq<TokenView>, i: int)
    requires
        0 <= i <= ts.len(),
        fix_fold(ts.take(i)) is None,
    ensures
        fix_fold(ts) is None,
    decreases ts.len() - i,
{
    if i < ts.len() {
        assert(ts.take(i + 1).drop_last() =~= ts.take(i));
        lemma_fix_fold_fails(ts, i + 1);
    } else {
        assert(ts.take(i) =~= ts);
    }
}

proof fn lemma_field_fix_fold_fails(ts: Seq<TokenView>, i: int)
    requires
        0 <= i <= ts.len(),
        field_fix_fold(ts.take(i)) is None,
    ensures
        field_fix_fold(ts) is None,
    decreases ts.len() - i,
{
    if i < ts.len() {
        assert(ts.take(i + 1).drop_last() =~= ts.take(i));
        lemma_field_fix_fold_fails(ts, i + 1);
    } else {
        assert(ts.take(i) =~= ts);
    }
}

/// Collects the annotation tokens of record `rec` from a node's unrecognized fields.
fn collect_tokens(opts: &Vec<UnknownField>, rec: Record) -> (r: Result<Option<Vec<Token>>, DecodeError>)
    ensures
        match annotation_tokens(unknown_views(opts@), rec) {
            Err(e) => r == Err::<Option<Vec<Token>>, DecodeError>(e),
            Ok(None) => r matches Ok(None),
            Ok(Some(ts)) => r matches Ok(Some(v)) && token_views(v@) == ts,
        },
{
    let ghost uv = unknown_views(opts@);
    let mut tokens: Vec<Token> = Vec::new();
    let mut found = false;
    let mut i: usize = 0;
    while i < opts.len()
        invariant
            uv == unknown_views(opts@),
            i <= opts@.len(),
            scan_payloads(payloads(uv.take(i as int)), rec) == Some(token_views(tokens@)),
            found == (payloads(uv.take(i as int)).len() > 0),
        decreases opts@.len() - i,
    {
        let ghost prev = payloads(uv.take(i as int));
        proof {
            assert(uv.take(i + 1).drop_last() =~= uv.take(i as int));
            assert(uv.take(i + 1).last() == opts@[i as int]@);
        }
        let u = &opts[i];
        if u.number == ANNOTATION_FIELD {
            match &u.value {
                UnknownValue::LengthDelimited(b) => {
                    match scan_record(b.as_slice(), rec) {
                        Some(mut more) => {
                            let ghost before = token_views(tokens@);
                            let ghost added = token_views(more@);
                            tokens.append(&mut more);
                            proof {
                                assert(token_views(tokens@) =~= before + added);
                                assert(payloads(uv.take(i + 1)) == prev.push(b@));
                                assert(prev.push(b@).drop_last() =~= prev);
                            }
                            found = true;
                        },
                        None => {
                            proof {
                                assert(payloads(uv.take(i + 1)) == prev.push(b@));
                                assert(prev.push(b@).drop_last() =~= prev);
                                lemma_payloads_prefix(uv, i + 1);
                                lemma_scan_payloads_fails(payloads(uv), payloads(uv.take(i + 1)), rec);
                            }
                            return Err(DecodeError);
                        },
                    }
                },
                _ => {},
            }
        }
        i = i + 1;
    }
    assert(uv.take(i as int) =~= uv);
    if found {
        Ok(Some(tokens))
    } else {
        Ok(None)
    }
}

proof fn lemma_payloads_prefix(opts: Seq<UnknownFieldView>, i: int)
    requires
        0 <= i <= opts.len(),
    ensures
        payloads(opts.take(i)).is_prefix_of(payloads(opts)),
    decreases opts.len() - i,
{
    if i < opts.len() {
        lemma_payloads_prefix(opts, i + 1);
        assert(opts.take(i + 1).drop_last() =~= opts.take(i));
    } else {
        assert(opts.take(i) =~= opts);
    }
}

proof fn lemma_scan_payloads_fails(ps: Seq<Seq<u8>>, prefix: Seq<Seq<u8>>, rec: Record)
    requires
        prefix.is_prefix_of(ps),
        scan_payloads(prefix, rec) is None,
    ensures
        scan_payloads(ps, rec) is None,
    decreases ps.len() - prefix.len(),
{
    if prefix.len() < ps.len() {
        let next = ps.take(prefix.len() + 1int);
        assert(next.drop_last() =~= prefix);
        lemma_scan_payloads_fails(ps, next, rec);
    } else {
        assert(prefix =~= ps);
    }
}

/// Decodes the field annotation on a node: `Ok(None)` where the node has no payload at
/// the reserved field number, `Err` where a payload is malformed.
pub fn find_field_options(opts: &Vec<UnknownField>) -> (r: Result<Option<FieldOptions>, DecodeError>)
    ensures
        match field_annotation(unknown_views(opts@)) {
            Err(e) => r == Err::<Option<FieldOptions>, DecodeError>(e),
            Ok(None) => r matches Ok(None),
            Ok(Some(o)) => r matches Ok(Some(x)) && x@ == o,
        },
{
    let ts = match collect_tokens(opts, Record::FieldOptions) {
        Err(e) => {
            return Err(e);
        },
        Ok(None) => {
            return Ok(None);
        },
        Ok(Some(ts)) => ts,
    };
    let ghost tv = token_views(ts@);
    assert(annotation_tokens(unknown_views(opts@), Record::FieldOptions) == Ok::<
        Option<Seq<TokenView>>,
        DecodeError,
    >(Some(tv)));
    let mut fixed_point: Option<FixedPointType> = None;
    let mut i: usize = 0;
    while i < ts.len()
        invariant
            tv == token_views(ts@),
            i <= ts@.len(),
            field_fix_fold(tv.take(i as int)) == Some(fixed_point),
            annotation_tokens(unknown_views(opts@), Record::FieldOptions) == Ok::<
                Option<Seq<TokenView>>,
                DecodeError,
            >(Some(tv)),
        decreases ts@.len() - i,
    {
        proof {
            assert(tv.take(i + 1).drop_last() =~= tv.take(i as int));
        }
        let t = &ts[i];
        match &t.value {
            WireValue::Nested(nb) => {
                if t.number == 1 {
                    match decode_fixed_point(nb.as_slice()) {
                        Some(x) => {
                            fixed_point = x;
                        },
                        None => {
                            proof {
                                assert(tv.take(i + 1).last() == ts@[i as int]@);
                                assert(field_fix_fold(tv.take(i + 1)) is None);
                                lemma_field_fix_fold_fails(tv, i as int + 1);
                                assert(field_options_of(tv) is None);
                            }
                            return Err(DecodeError);
                        },
                    }
                }
            },
            _ => {},
        }
        i = i + 1;
    }
    assert(tv.take(i as int) =~= tv);
    let unit = find_last_text(&ts, 2);
    let description = find_last_text(&ts, 3);
    Ok(Some(FieldOptions { fixed_point, unit, description }))
}

/// Decodes the id annotation of a message or a method.
pub fn find_id_options(opts: &Vec<UnknownField>) -> (r: Result<Option<u32>, DecodeError>)
    ensures
        r == id_annotation(unknown_views(opts@)),
{
    match collect_tokens(opts, Record::Ident) {
        Err(e) => Err(e),
        Ok(None) => Ok(None),
        Ok(Some(ts)) => Ok(Some(find_last_u32(&ts, 1, 0))),
    }
}

/// Decodes the service annotation on a node.
pub fn find_service_options(opts: &Vec<UnknownField>) -> (r: Result<Option<ServiceOptions>, DecodeError>)
    ensures
        match service_annotation(unknown_views(opts@)) {
            Err(e) => r == Err::<Option<ServiceOptions>, DecodeError>(e),
            Ok(None) => r matches Ok(None),
            Ok(Some(o)) => r matches Ok(Some(x)) && x@ == o,
        },
{
    match collect_tokens(opts, Record::ServiceOptions) {
        Err(e) => Err(e),
        Ok(None) => Ok(None),
        Ok(Some(ts)) => {
            let id = find_last_u32(&ts, 1, 0);
            let kind = find_last_i32(&ts, 2);
            let identifier = find_last_text(&ts, 3);
            let display_name = find_last_text(&ts, 4);
            Ok(Some(ServiceOptions { id, kind, identifier, display_name }))
        },
    }
}

} // verus!
