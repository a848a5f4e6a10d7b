//! Tells how an H.264 access unit is packaged, and which NAL units it holds.

use vstd::prelude::*;

verus! {

/// Format name of a byte stream with start codes.
pub const ANNEX_B: &'static str = "annex-b";

/// Format name of NAL units behind four-byte lengths.
pub const AVCC: &'static str = "avcc-4byte";

/// Format name of a NAL unit by itself.
pub const RAW_NAL: &'static str = "raw-single-nal";

/// Format name of anything else.
pub const UNKNOWN: &'static str = "unknown";

/// NAL unit type of a slice of an IDR picture.
pub const NAL_IDR: u8 = 5;

/// NAL unit type of a sequence parameter set.
pub const NAL_SPS: u8 = 7;

/// NAL unit type of a picture parameter set.
pub const NAL_PPS: u8 = 8;

/// What is known of an access unit.
#[derive(Debug)]
pub struct H264Analysis {
    /// How it is packaged.
    pub format: &'static str,
    /// The types of its NAL units, in order.
    pub nal_types: Vec<u8>,
    pub has_sps: bool,
    pub has_pps: bool,
    pub has_idr: bool,
}

/// The mathematical content of an [`H264Analysis`].
#[verifier::ext_equal]
pub struct AnalysisView {
    pub format: Seq<char>,
    pub nal_types: Seq<u8>,
    pub has_sps: bool,
    pub has_pps: bool,
    pub has_idr: bool,
}

impl View for H264Analysis {
    type V = AnalysisView;

    open spec fn view(&self) -> AnalysisView {
        AnalysisView {
            format: self.format@,
            nal_types: self.nal_types@,
            has_sps: self.has_sps,
            has_pps: self.has_pps,
            has_idr: self.has_idr,
        }
    }
}

/// The NAL unit type in the first byte of a unit.
pub open spec fn nal_type(header: u8) -> u8 {
    header & 0x1f
}

/// A type that a unit may have which is not part of a larger packet.
pub open spec fn is_single_type(typ: u8) -> bool {
    1 <= typ <= 23
}

/// The analysis of an access unit of a format, with units of these types.
pub open spec fn summary(format: Seq<char>, nal_types: Seq<u8>) -> AnalysisView {
    AnalysisView {
        format,
        nal_types,
        has_sps: nal_types.contains(NAL_SPS),
        has_pps: nal_types.contains(NAL_PPS),
        has_idr: nal_types.contains(NAL_IDR),
    }
}

fn holds(types: &Vec<u8>, typ: u8) -> (r: bool)
    ensures
        r == types@.contains(typ),
{
    let mut i: usize = 0;
    while i < types.len()
        invariant
            i <= types@.len(),
            forall|k: int| 0 <= k < i ==> types@[k] != typ,
        decreases types@.len() - i,
    {
        if types[i] == typ {
            return true;
        }
        i = i + 1;
    }
    false
}

/// Sums up an access unit.
pub fn summarise(format: &'static str, nal_types: Vec<u8>) -> (analysis: H264Analysis)
    ensures
        analysis@ == summary(format@, nal_types@),
{
    let has_sps = holds(&nal_types, NAL_SPS);
    let has_pps = holds(&nal_types, NAL_PPS);
    let has_idr = holds(&nal_types, NAL_IDR);
    H264Analysis { format, nal_types, has_sps, has_pps, has_idr }
}

/// The three bytes that end every start code stand at `p`.
pub open spec fn is_code(data: Seq<u8>, p: int) -> bool {
    0 <= p && p + 3 <= data.len() && data[p] == 0 && data[p + 1] == 0 && data[p + 2] == 1
}

/// Where the start code begins whose last three bytes stand at `p`: a zero in
/// front of them belongs to it.
pub open spec fn code_begin(data: Seq<u8>, p: int) -> int {
    if p >= 1 && data[p - 1] == 0 {
        p - 1
    } else {
        p
    }
}

/// The start codes whose last three bytes stand before `limit`, from left to
/// right: where each begins, and where what follows it begins.
pub open spec fn start_codes(data: Seq<u8>, limit: nat) -> Seq<(usize, usize)>
    decreases limit,
{
    if limit == 0 {
        Seq::empty()
    } else {
        let before = start_codes(data, (limit - 1) as nat);
        let p = limit - 1;
        if is_code(data, p) {
            before.push((code_begin(data, p) as usize, (p + 3) as usize))
        } else {
            before
        }
    }
}

/// All start codes, from left to right.
pub open spec fn all_start_codes(data: Seq<u8>) -> Seq<(usize, usize)> {
    start_codes(data, data.len())
}

proof fn lemma_no_codes_between(data: Seq<u8>, from: nat, to: nat)
    requires
        from <= to,
        forall|p: int| from <= p < to ==> !is_code(data, p),
    ensures
        start_codes(data, to) == start_codes(data, from),
    decreases to,
{
    if from < to {
        lemma_no_codes_between(data, from, (to - 1) as nat);
    }
}

/// The start codes of an access unit: where each begins, and where what follows
/// it begins.
pub fn annex_b_starts(data: &[u8]) -> (starts: Vec<(usize, usize)>)
    ensures
        starts@ == all_start_codes(data@),
{
    let mut starts: Vec<(usize, usize)> = Vec::new();
    let mut i: usize = 0;
    while data.len() - i >= 3
        invariant
            i <= data@.len(),
            starts@ == start_codes(data@, i as nat),
            i >= 1 && is_code(data@, i as int) ==> data@[i - 1] != 0,
        decreases data@.len() - i,
    {
        if data.len() - i >= 4 && data[i] == 0 && data[i + 1] == 0 && data[i + 2] == 0 && data[i
            + 3] == 1 {
            proof {
                lemma_no_codes_between(data@, i as nat, (i + 1) as nat);
                assert(is_code(data@, i + 1));
                lemma_no_codes_between(data@, (i + 2) as nat, (i + 4) as nat);
            }
            starts.push((i, i + 4));
            i = i + 4;
        } else if data[i] == 0 && data[i + 1] == 0 && data[i + 2] == 1 {
            proof {
                assert(is_code(data@, i as int));
                lemma_no_codes_between(data@, (i + 1) as nat, (i + 3) as nat);
            }
            starts.push((i, i + 3));
            i = i + 3;
        } else {
            proof {
                lemma_no_codes_between(data@, i as nat, (i + 1) as nat);
            }
            i = i + 1;
        }
    }
    proof {
        lemma_no_codes_between(data@, i as nat, data@.len());
    }
    starts
}

/// The types of the NAL units that follow start codes. Nothing follows a start
/// code at the very end.
pub open spec fn types_after(data: Seq<u8>, starts: Seq<(usize, usize)>) -> Seq<u8>
    decreases starts.len(),
{
    if starts.len() == 0 {
        Seq::empty()
    } else {
        let before = types_after(data, starts.drop_last());
        if starts.last().1 < data.len() {
            before.push(nal_type(data[starts.last().1 as int]))
        } else {
            before
        }
    }
}

/// The types of the NAL units of a byte stream, if there are start codes.
pub open spec fn annex_b_types(data: Seq<u8>) -> Option<Seq<u8>> {
    if all_start_codes(data).len() == 0 {
        None
    } else {
        Some(types_after(data, all_start_codes(data)))
    }
}

/// The types of the NAL units of a byte stream with start codes.
pub fn annex_b_nal_types(data: &[u8]) -> (r: Option<Vec<u8>>)
    ensures
        match r {
            Some(types) => annex_b_types(data@) == Some(types@),
            None => annex_b_types(data@) is None,
        },
{
    let starts: Vec<(usize, usize)> = annex_b_starts(data);
    if starts.len() == 0 {
        return None;
    }
    let mut types: Vec<u8> = Vec::new();
    let mut k: usize = 0;
    while k < starts.len()
        invariant
            k <= starts@.len(),
            types@ == types_after(data@, starts@.take(k as int)),
        decreases starts@.len() - k,
    {
        assert(starts@.take(k + 1).drop_last() =~= starts@.take(k as int));
        let payload: usize = starts[k].1;
        if payload < data.len() {
            types.push(data[payload] & 0x1f);
        }
        k = k + 1;
    }
    assert(starts@.take(k as int) =~= starts@);
    Some(types)
}

/// The big-endian number in four bytes.
pub open spec fn u32_be_at(data: Seq<u8>, offset: int) -> int {
    data[offset] * 0x100_0000 + data[offset + 1] * 0x1_0000 + data[offset + 2] * 0x100 + data[offset
        + 3]
}

/// The types of the length-prefixed NAL units that make up the rest of `data`
/// from `offset` on, if it is made up of such units.
pub open spec fn avcc_types_from(data: Seq<u8>, offset: int) -> Option<Seq<u8>>
    decreases data.len() - offset,
{
    if offset == data.len() {
        Some(Seq::empty())
    } else if offset < 0 || data.len() - offset < 4 {
        None
    } else {
        let len = u32_be_at(data, offset);
        let typ = nal_type(data[offset + 4]);
        if 0 < len <= data.len() - offset - 4 && is_single_type(typ) {
            match avcc_types_from(data, offset + 4 + len) {
                Some(rest) => Some(seq![typ] + rest),
                None => None,
            }
        } else {
            None
        }
    }
}

/// The types of the NAL units of an access unit that is made up of
/// length-prefixed units.
pub open spec fn avcc_types(data: Seq<u8>) -> Option<Seq<u8>> {
    if data.len() == 0 {
        None
    } else {
        avcc_types_from(data, 0)
    }
}

fn get_u32_be(data: &[u8], offset: usize) -> (value: u32)
    requires
        offset + 4 <= data@.len(),
    ensures
        value == u32_be_at(data@, offset as int),
{
    data[offset] as u32 * 0x100_0000 + data[offset + 1] as u32 * 0x1_0000 + data[offset + 2] as u32
        * 0x100 + data[offset + 3] as u32
}

/// The types of length-prefixed NAL units.
pub fn avcc_nal_types(data: &[u8]) -> (r: Option<Vec<u8>>)
    ensures
        match r {
            Some(types) => avcc_types(data@) == Some(types@),
            None => avcc_types(data@) is None,
        },
{
    if data.len() < 5 {
        return None;
    }
    let mut offset: usize = 0;
    let mut types: Vec<u8> = Vec::new();
    while data.len() - offset >= 4
        invariant
            5 <= data@.len(),
            offset <= data@.len(),
            match avcc_types_from(data@, offset as int) {
                Some(rest) => avcc_types(data@) == Some(types@ + rest),
                None => avcc_types(data@) is None,
            },
        decreases data@.len() - offset,
    {
        let ghost before = offset as int;
        let ghost seen = types@;
        let len: u32 = get_u32_be(data, offset);
        offset = offset + 4;
        if len == 0 || len as usize > data.len() - offset {
            return None;
        }
        let typ: u8 = data[offset] & 0x1f;
        if typ < 1 || typ > 23 {
            return None;
        }
        types.push(typ);
        offset = offset + len as usize;
        proof {
            if let Some(rest) = avcc_types_from(data@, offset as int) {
                assert(seen + (seq![typ] + rest) =~= types@ + rest);
            }
        }
    }
    if offset == data.len() {
        assert(types@ + Seq::<u8>::empty() =~= types@);
        Some(types)
    } else {
        None
    }
}

/// The analysis of an access unit: start codes tell a byte stream; failing that,
/// length-prefixed units are recognised; failing that, a single unit by its type.
pub open spec fn analysis_of(data: Seq<u8>) -> AnalysisView {
    match annex_b_types(data) {
        Some(types) => summary(ANNEX_B@, types),
        None => match avcc_types(data) {
            Some(types) => summary(AVCC@, types),
            None => if data.len() > 0 && is_single_type(nal_type(data[0])) {
                summary(RAW_NAL@, seq![nal_type(data[0])])
            } else {
                summary(UNKNOWN@, Seq::empty())
            },
        },
    }
}

/// Tells how an access unit is packaged, and which NAL units it holds.
pub fn analyse_h264(data: &[u8]) -> (analysis: H264Analysis)
    ensures
        analysis@ == analysis_of(data@),
{
    if let Some(types) = annex_b_nal_types(data) {
        return summarise(ANNEX_B, types);
    }
    if let Some(types) = avcc_nal_types(data) {
        return summarise(AVCC, types);
    }
    if data.len() > 0 {
        let typ: u8 = data[0] & 0x1f;
        if typ >= 1 && typ <= 23 {
            let types: Vec<u8> = vec![typ];
            assert(types@ =~= seq![typ]);
            return summarise(RAW_NAL, types);
        }
    }
    summarise(UNKNOWN, Vec::new())
}

proof fn lemma_start_codes(data: Seq<u8>, limit: nat)
    requires
        limit <= data.len() <= usize::MAX,
    ensures
        forall|k: int|
            #![trigger start_codes(data, limit)[k]]
            0 <= k < start_codes(data, limit).len() ==> {
                let (begin, payload) = start_codes(data, limit)[k];
                &&& 3 <= payload < limit + 3
                &&& is_code(data, payload - 3)
                &&& begin == code_begin(data, payload - 3)
            },
        forall|k: int, m: int|
            #![trigger start_codes(data, limit)[k], start_codes(data, limit)[m]]
            0 <= k < m < start_codes(data, limit).len() ==> start_codes(data, limit)[k].1
                <= start_codes(data, limit)[m].0,
        forall|p: int|
            0 <= p < limit && #[trigger] is_code(data, p) ==> start_codes(data, limit).contains(
                (code_begin(data, p) as usize, (p + 3) as usize),
            ),
    decreases limit,
{
    if limit > 0 {
        let before = start_codes(data, (limit - 1) as nat);
        let all = start_codes(data, limit);
        lemma_start_codes(data, (limit - 1) as nat);
        assert forall|k: int, m: int| 0 <= k < m < all.len() implies (#[trigger] all[k]).1 <= (
        #[trigger] all[m]).0 by {
            assert(all[k] == before[k]);
            if m == before.len() {
                let p = before[k].1 - 3;
                assert(is_code(data, p));
                assert(is_code(data, limit - 1));
                assert(p + 3 <= limit - 1);
            } else {
                assert(all[m] == before[m]);
            }
        }
        assert forall|p: int| 0 <= p < limit && #[trigger] is_code(data, p) implies all.contains(
            (code_begin(data, p) as usize, (p + 3) as usize),
        ) by {
            let code = (code_begin(data, p) as usize, (p + 3) as usize);
            if p == limit - 1 {
                assert(all[before.len() as int] == code);
            } else {
                assert(before.contains(code));
                let k = choose|k: int| 0 <= k < before.len() && before[k] == code;
                assert(all[k] == code);
            }
        }
    }
}

/// Exactly the start codes are found, each with the zero in front of it, from
/// left to right and without overlap.
pub proof fn law_exactly_the_start_codes_are_found(data: Seq<u8>, p: int)
    requires
        data.len() <= usize::MAX,
    ensures
        is_code(data, p) ==> all_start_codes(data).contains(
            (code_begin(data, p) as usize, (p + 3) as usize),
        ),
        forall|k: int|
            #![trigger all_start_codes(data)[k]]
            0 <= k < all_start_codes(data).len() ==> {
                let (begin, payload) = all_start_codes(data)[k];
                &&& is_code(data, payload - 3)
                &&& begin == code_begin(data, payload - 3)
                &&& payload <= data.len()
            },
        forall|k: int, m: int|
            #![trigger all_start_codes(data)[k], all_start_codes(data)[m]]
            0 <= k < m < all_start_codes(data).len() ==> all_start_codes(data)[k].1
                <= all_start_codes(data)[m].0,
{
    lemma_start_codes(data, data.len());
}

/// The types of units, each in its first byte.
pub open spec fn unit_types(units: Seq<Seq<u8>>) -> Seq<u8> {
    units.map_values(|unit: Seq<u8>| nal_type(unit[0]))
}

/// Units behind four-byte start codes.
pub open spec fn annex_b_stream(units: Seq<Seq<u8>>) -> Seq<u8>
    decreases units.len(),
{
    if units.len() == 0 {
        Seq::empty()
    } else {
        annex_b_stream(units.drop_last()) + seq![0u8, 0u8, 0u8, 1u8] + units.last()
    }
}

/// A unit that can stand in a byte stream: not empty, and without a start code
/// in it.
pub open spec fn is_stream_unit(unit: Seq<u8>) -> bool {
    unit.len() > 0 && forall|p: int| !is_code(unit, p)
}

proof fn lemma_same_codes(a: Seq<u8>, b: Seq<u8>, limit: nat)
    requires
        limit <= a.len() <= b.len(),
        forall|i: int| 0 <= i < a.len() ==> a[i] == b[i],
        forall|p: int| 0 <= p < limit ==> is_code(a, p) == is_code(b, p),
    ensures
        start_codes(a, limit) == start_codes(b, limit),
    decreases limit,
{
    if limit > 0 {
        lemma_same_codes(a, b, (limit - 1) as nat);
    }
}

proof fn lemma_same_types(a: Seq<u8>, b: Seq<u8>, starts: Seq<(usize, usize)>)
    requires
        a.len() <= b.len(),
        forall|i: int| 0 <= i < a.len() ==> a[i] == b[i],
        forall|k: int| 0 <= k < starts.len() ==> (#[trigger] starts[k]).1 < a.len(),
    ensures
        types_after(a, starts) == types_after(b, starts),
    decreases starts.len(),
{
    if starts.len() > 0 {
        lemma_same_types(a, b, starts.drop_last());
    }
}

proof fn lemma_append_unit(a: Seq<u8>, unit: Seq<u8>, b: Seq<u8>)
    requires
        is_stream_unit(unit),
        b == a + seq![0u8, 0u8, 0u8, 1u8] + unit,
        b.len() <= usize::MAX,
    ensures
        all_start_codes(b) == all_start_codes(a).push(
            (a.len() as usize, (a.len() + 4) as usize),
        ),
        b[a.len() + 4int] == unit[0],
{
    let n = a.len() as int;
    assert(b[n] == 0);
    assert(b[n + 1] == 0);
    assert(b[n + 2] == 0);
    assert(b[n + 3] == 1);
    assert forall|p: int| 0 <= p < n implies is_code(a, p) == is_code(b, p) by {}
    lemma_same_codes(a, b, a.len());
    assert(!is_code(b, n));
    assert(is_code(b, n + 1));
    assert(start_codes(b, (n + 1) as nat) == start_codes(b, n as nat));
    assert(start_codes(b, (n + 2) as nat) == start_codes(b, n as nat).push(
        (n as usize, (n + 4) as usize),
    ));
    assert forall|p: int| n + 2 <= p < b.len() implies !is_code(b, p) by {
        if p >= n + 4 {
            assert(!is_code(unit, p - n - 4));
        }
    }
    lemma_no_codes_between(b, (n + 2) as nat, b.len());
}

proof fn lemma_annex_b_stream(units: Seq<Seq<u8>>)
    requires
        forall|k: int| 0 <= k < units.len() ==> is_stream_unit(#[trigger] units[k]),
        annex_b_stream(units).len() <= usize::MAX,
    ensures
        all_start_codes(annex_b_stream(units)).len() == units.len(),
        forall|k: int|
            #![trigger all_start_codes(annex_b_stream(units))[k]]
            0 <= k < units.len() ==> all_start_codes(annex_b_stream(units))[k].1 < annex_b_stream(
                units,
            ).len(),
        types_after(annex_b_stream(units), all_start_codes(annex_b_stream(units))) == unit_types(
            units,
        ),
    decreases units.len(),
{
    if units.len() == 0 {
        assert(unit_types(units) =~= Seq::empty());
    } else {
        let front = units.drop_last();
        let unit = units[units.len() - 1];
        let a = annex_b_stream(front);
        let b = annex_b_stream(units);
        assert forall|k: int| 0 <= k < front.len() implies is_stream_unit(#[trigger] front[k]) by {
            assert(front[k] == units[k]);
        }
        lemma_annex_b_stream(front);
        lemma_append_unit(a, unit, b);
        let starts = all_start_codes(b);
        assert(starts.drop_last() =~= all_start_codes(a));
        lemma_same_types(a, b, all_start_codes(a));
        assert(unit_types(units) =~= unit_types(front).push(nal_type(unit[0])));
    }
}

/// A byte stream of units is recognised as one, and the types of its units are
/// told.
pub proof fn law_annex_b_stream_is_recognised(units: Seq<Seq<u8>>)
    requires
        units.len() > 0,
        forall|k: int| 0 <= k < units.len() ==> is_stream_unit(#[trigger] units[k]),
        annex_b_stream(units).len() <= usize::MAX,
    ensures
        annex_b_types(annex_b_stream(units)) == Some(unit_types(units)),
        analysis_of(annex_b_stream(units)) == summary(ANNEX_B@, unit_types(units)),
{
    lemma_annex_b_stream(units);
}

/// A number in four big-endian bytes.
pub open spec fn u32_be(value: u32) -> Seq<u8> {
    seq![
        (value / 0x100_0000) as u8,
        (value / 0x1_0000 % 0x100) as u8,
        (value / 0x100 % 0x100) as u8,
        (value % 0x100) as u8,
    ]
}

/// Units behind four-byte lengths.
pub open spec fn avcc_stream(units: Seq<Seq<u8>>) -> Seq<u8>
    decreases units.len(),
{
    if units.len() == 0 {
        Seq::empty()
    } else {
        u32_be(units[0].len() as u32) + units[0] + avcc_stream(units.drop_first())
    }
}

/// A unit that can stand behind a four-byte length.
pub open spec fn is_avcc_unit(unit: Seq<u8>) -> bool {
    0 < unit.len() <= u32::MAX && is_single_type(nal_type(unit[0]))
}

proof fn lemma_avcc_stream(data: Seq<u8>, offset: int, units: Seq<Seq<u8>>)
    requires
        0 <= offset <= data.len(),
        data.skip(offset) == avcc_stream(units),
        forall|k: int| 0 <= k < units.len() ==> is_avcc_unit(#[trigger] units[k]),
    ensures
        avcc_types_from(data, offset) == Some(unit_types(units)),
    decreases units.len(),
{
    let stream = avcc_stream(units);
    if units.len() == 0 {
        assert(unit_types(units) =~= Seq::empty());
    } else {
        let unit = units[0];
        let rest = units.drop_first();
        let len = unit.len() as u32;
        assert(is_avcc_unit(units[0]));
        assert(stream.len() >= 4 + len);
        assert forall|i: int| 0 <= i < stream.len() implies #[trigger] stream[i] == data[offset
            + i] by {
            assert(data.skip(offset)[i] == data[offset + i]);
        }
        assert(u32_be_at(data, offset) == len) by {
            assert(stream[0] == u32_be(len)[0]);
            assert(stream[1] == u32_be(len)[1]);
            assert(stream[2] == u32_be(len)[2]);
            assert(stream[3] == u32_be(len)[3]);
        }
        assert(stream[4] == unit[0]);
        assert(data.skip(offset + 4 + len) =~= avcc_stream(rest)) by {
            assert(stream.skip(4 + len) =~= avcc_stream(rest));
            assert(stream.skip(4 + len) =~= data.skip(offset + 4 + len));
        }
        assert forall|k: int| 0 <= k < rest.len() implies is_avcc_unit(#[trigger] rest[k]) by {
            assert(rest[k] == units[k + 1]);
        }
        lemma_avcc_stream(data, offset + 4 + len, rest);
        assert(unit_types(units) =~= seq![nal_type(unit[0])] + unit_types(rest));
    }
}

/// Length-prefixed units are recognised, and their types told, unless they hold
/// what could be a start code.
pub proof fn law_avcc_stream_is_recognised(units: Seq<Seq<u8>>)
    requires
        units.len() > 0,
        forall|k: int| 0 <= k < units.len() ==> is_avcc_unit(#[trigger] units[k]),
    ensures
        avcc_types(avcc_stream(units)) == Some(unit_types(units)),
        annex_b_types(avcc_stream(units)) is None ==> analysis_of(avcc_stream(units)) == summary(
            AVCC@,
            unit_types(units),
        ),
{
    let data = avcc_stream(units);
    assert(data.skip(0) =~= data);
    lemma_avcc_stream(data, 0, units);
    assert(is_avcc_unit(units[0]));
}

/// The units that make up `data` from `offset` on.
spec fn avcc_units_from(data: Seq<u8>, offset: int) -> Seq<Seq<u8>>
    decreases data.len() - offset,
{
    let next = offset + 4 + u32_be_at(data, offset);
    if offset < 0 || next < offset + 4 || next > data.len() {
        Seq::empty()
    } else {
        seq![data.subrange(offset + 4, next)] + avcc_units_from(data, next)
    }
}

proof fn lemma_u32_be(data: Seq<u8>, offset: int)
    requires
        0 <= offset,
        offset + 4 <= data.len(),
    ensures
        u32_be_at(data, offset) <= u32::MAX,
        u32_be(u32_be_at(data, offset) as u32) == data.subrange(offset, offset + 4),
{
    let value = u32_be_at(data, offset) as u32;
    assert(value / 0x100_0000 == data[offset]);
    assert(value / 0x1_0000 == data[offset] * 0x100 + data[offset + 1]);
    assert(value / 0x100 == data[offset] * 0x1_0000 + data[offset + 1] * 0x100 + data[offset + 2]);
    assert(u32_be(value) =~= data.subrange(offset, offset + 4));
}

proof fn lemma_avcc_units(data: Seq<u8>, offset: int)
    requires
        0 <= offset <= data.len(),
        avcc_types_from(data, offset) is Some,
    ensures
        avcc_stream(avcc_units_from(data, offset)) == data.skip(offset),
        forall|k: int|
            0 <= k < avcc_units_from(data, offset).len() ==> is_avcc_unit(
                #[trigger] avcc_units_from(data, offset)[k],
            ),
        unit_types(avcc_units_from(data, offset)) == avcc_types_from(data, offset)->0,
    decreases data.len() - offset,
{
    let units = avcc_units_from(data, offset);
    if offset == data.len() {
        assert(avcc_stream(units) =~= data.skip(offset));
        assert(unit_types(units) =~= Seq::empty());
    } else {
        let len = u32_be_at(data, offset);
        let next = offset + 4 + len;
        let rest = avcc_units_from(data, next);
        let unit = data.subrange(offset + 4, next);
        lemma_avcc_units(data, next);
        assert(units[0] == unit);
        assert(units.drop_first() =~= rest);
        assert(unit[0] == data[offset + 4]);
        lemma_u32_be(data, offset);
        assert(data.skip(offset) =~= data.subrange(offset, offset + 4) + unit + data.skip(next));
        assert forall|k: int| 0 <= k < units.len() implies is_avcc_unit(#[trigger] units[k]) by {
            if k > 0 {
                assert(units[k] == rest[k - 1]);
            }
        }
        assert(unit_types(units) =~= seq![nal_type(unit[0])] + unit_types(rest));
    }
}

/// Only length-prefixed units are recognised as such.
pub proof fn law_only_avcc_streams_are_recognised(data: Seq<u8>)
    requires
        avcc_types(data) is Some,
    ensures
        exists|units: Seq<Seq<u8>>|
            {
                &&& units.len() > 0
                &&& #[trigger] avcc_stream(units) == data
                &&& forall|k: int| 0 <= k < units.len() ==> is_avcc_unit(#[trigger] units[k])
                &&& avcc_types(data) == Some(unit_types(units))
            },
{
    lemma_avcc_units(data, 0);
    assert(data.skip(0) =~= data);
    let units = avcc_units_from(data, 0);
    assert(avcc_stream(units) == data);
}

/// The type of a unit is what the low five bits of its first byte say.
pub proof fn law_type_is_in_the_low_five_bits(header: u8)
    ensures
        nal_type(header) == header % 32,
        is_single_type(nal_type(header)) <==> 1 <= header % 32 <= 23,
{
    assert(header & 0x1f == header % 32) by (bit_vector);
}

/// A start code is told by its bytes: each one that is found ends in two zeros
/// and a one, has the zero in front of them where there is one, and none is
/// missing.
pub proof fn law_start_codes_are_told_by_their_bytes(data: Seq<u8>, p: int)
    requires
        data.len() <= usize::MAX,
    ensures
        ({
            let starts = all_start_codes(data);
            &&& 3 <= p <= data.len() && data[p - 3] == 0 && data[p - 2] == 0 && data[p - 1] == 1
                ==> exists|k: int| 0 <= k < starts.len() && (#[trigger] starts[k]).1 == p
            &&& forall|k: int|
                #![trigger starts[k]]
                0 <= k < starts.len() ==> {
                    let (begin, payload) = starts[k];
                    &&& 3 <= payload <= data.len()
                    &&& data[payload - 3] == 0
                    &&& data[payload - 2] == 0
                    &&& data[payload - 1] == 1
                    &&& begin == if payload >= 4 && data[payload - 4] == 0 {
                        payload - 4
                    } else {
                        payload - 3
                    }
                }
            &&& forall|k: int, m: int|
                #![trigger starts[k], starts[m]]
                0 <= k < m < starts.len() ==> starts[k].1 < starts[m].1
        }),
{
    let starts = all_start_codes(data);
    lemma_start_codes(data, data.len());
    if 3 <= p <= data.len() && data[p - 3] == 0 && data[p - 2] == 0 && data[p - 1] == 1 {
        assert(is_code(data, p - 3));
        let code = (code_begin(data, p - 3) as usize, p as usize);
        assert(starts.contains(code));
        let k = choose|k: int| 0 <= k < starts.len() && starts[k] == code;
        assert(starts[k].1 == p);
    }
    assert forall|k: int, m: int|
        #![trigger starts[k], starts[m]]
        0 <= k < m < starts.len() implies starts[k].1 < starts[m].1 by {
        assert(starts[k].1 <= starts[m].0);
    }
}

proof fn lemma_types_after(data: Seq<u8>, starts: Seq<(usize, usize)>)
    requires
        forall|k: int| 0 <= k < starts.len() ==> (#[trigger] starts[k]).1 < data.len(),
    ensures
        types_after(data, starts).len() == starts.len(),
        forall|k: int|
            #![trigger starts[k]]
            0 <= k < starts.len() ==> types_after(data, starts)[k] == nal_type(
                data[starts[k].1 as int],
            ),
    decreases starts.len(),
{
    if starts.len() > 0 {
        let front = starts.drop_last();
        assert forall|k: int| 0 <= k < front.len() implies (#[trigger] front[k]).1 < data.len() by {
            assert(front[k] == starts[k]);
        }
        lemma_types_after(data, front);
        assert forall|k: int| #![trigger starts[k]] 0 <= k < starts.len() implies types_after(
            data,
            starts,
        )[k] == nal_type(data[starts[k].1 as int]) by {
            if k < front.len() {
                assert(front[k] == starts[k]);
            }
        }
    }
}

/// Every start code has a unit behind it, whatever its length and whatever the
/// units around it, unless the data end with it: there are as many types as start
/// codes, but for one at the very end, and each type is that of the byte behind
/// its start code.
pub proof fn law_every_start_code_has_its_unit(data: Seq<u8>)
    requires
        data.len() <= usize::MAX,
    ensures
        ({
            let starts = all_start_codes(data);
            &&& annex_b_types(data) is Some <==> starts.len() > 0
            &&& annex_b_types(data) matches Some(types) ==> {
                &&& types.len() == if starts.last().1 < data.len() {
                    starts.len() as int
                } else {
                    starts.len() - 1
                }
                &&& forall|k: int|
                    0 <= k < types.len() ==> #[trigger] types[k] == data[starts[k].1 as int] % 32
            }
        }),
{
    let starts = all_start_codes(data);
    lemma_start_codes(data, data.len());
    if starts.len() > 0 {
        let whole = if starts.last().1 < data.len() {
            starts
        } else {
            starts.drop_last()
        };
        assert forall|k: int| 0 <= k < whole.len() implies (#[trigger] whole[k]).1 < data.len() by {
            assert(whole[k] == starts[k]);
            let last = starts.len() - 1;
            if k < last {
                assert(starts[k].1 <= starts[last].0);
                assert(starts[last].0 < starts[last].1);
            }
        }
        lemma_types_after(data, whole);
        let types = types_after(data, starts);
        assert(types == types_after(data, whole));
        assert forall|k: int| 0 <= k < types.len() implies #[trigger] types[k] == data[starts[k].1
            as int] % 32 by {
            assert(whole[k] == starts[k]);
            law_type_is_in_the_low_five_bits(data[starts[k].1 as int]);
        }
    }
}

/// A start code of four bytes, or of three.
pub open spec fn start_code(long: bool) -> Seq<u8> {
    if long {
        seq![0u8, 0u8, 0u8, 1u8]
    } else {
        seq![0u8, 0u8, 1u8]
    }
}

/// Units behind start codes, each of which has four bytes or three.
pub open spec fn mixed_stream(units: Seq<Seq<u8>>, long: Seq<bool>) -> Seq<u8>
    decreases units.len(),
{
    if units.len() == 0 {
        Seq::empty()
    } else {
        mixed_stream(units.drop_last(), long) + start_code(long[units.len() - 1]) + units.last()
    }
}

proof fn lemma_append_behind(a: Seq<u8>, long: bool, unit: Seq<u8>, b: Seq<u8>)
    requires
        is_stream_unit(unit),
        b == a + start_code(long) + unit,
        b.len() <= usize::MAX,
    ensures
        all_start_codes(b).len() == all_start_codes(a).len() + 1,
        all_start_codes(b).drop_last() == all_start_codes(a),
        all_start_codes(b).last().1 == a.len() + start_code(long).len(),
        b[(a.len() + start_code(long).len()) as int] == unit[0],
{
    if long {
        lemma_append_unit(a, unit, b);
        assert(all_start_codes(b).drop_last() =~= all_start_codes(a));
    } else {
        let n = a.len() as int;
        assert(b[n] == 0);
        assert(b[n + 1] == 0);
        assert(b[n + 2] == 1);
        assert forall|p: int| 0 <= p < n implies is_code(a, p) == is_code(b, p) by {}
        lemma_same_codes(a, b, a.len());
        assert(is_code(b, n));
        let code = (code_begin(b, n) as usize, (n + 3) as usize);
        assert(start_codes(b, (n + 1) as nat) == start_codes(b, n as nat).push(code));
        assert forall|p: int| n + 1 <= p < b.len() implies !is_code(b, p) by {
            if p >= n + 3 {
                assert(!is_code(unit, p - n - 3));
            }
        }
        lemma_no_codes_between(b, (n + 1) as nat, b.len());
        assert(all_start_codes(b).drop_last() =~= all_start_codes(a));
    }
}

proof fn lemma_mixed_stream(units: Seq<Seq<u8>>, long: Seq<bool>)
    requires
        units.len() <= long.len(),
        forall|k: int| 0 <= k < units.len() ==> is_stream_unit(#[trigger] units[k]),
        mixed_stream(units, long).len() <= usize::MAX,
    ensures
        all_start_codes(mixed_stream(units, long)).len() == units.len(),
        forall|k: int|
            #![trigger all_start_codes(mixed_stream(units, long))[k]]
            0 <= k < units.len() ==> all_start_codes(mixed_stream(units, long))[k].1
                < mixed_stream(units, long).len(),
        types_after(mixed_stream(units, long), all_start_codes(mixed_stream(units, long)))
            == unit_types(units),
    decreases units.len(),
{
    if units.len() == 0 {
        assert(unit_types(units) =~= Seq::empty());
    } else {
        let front = units.drop_last();
        let unit = units[units.len() - 1];
        let a = mixed_stream(front, long);
        let b = mixed_stream(units, long);
        assert forall|k: int| 0 <= k < front.len() implies is_stream_unit(#[trigger] front[k]) by {
            assert(front[k] == units[k]);
        }
        lemma_mixed_stream(front, long);
        lemma_append_behind(a, long[units.len() - 1], unit, b);
        let starts = all_start_codes(b);
        assert forall|k: int| #![trigger starts[k]] 0 <= k < starts.len() implies starts[k].1
            < b.len() by {
            if k < starts.len() - 1 {
                assert(starts.drop_last()[k] == starts[k]);
                assert(all_start_codes(a)[k] == starts[k]);
            }
        }
        lemma_same_types(a, b, all_start_codes(a));
        assert(unit_types(units) =~= unit_types(front).push(nal_type(unit[0])));
    }
}

/// A unit without a start code in it, told by its bytes.
pub open spec fn has_no_code(unit: Seq<u8>) -> bool {
    forall|i: int|
        0 <= i && i + 2 < unit.len() && #[trigger] unit[i] == 0 && unit[i + 1] == 0 ==> unit[i + 2]
            != 1
}

/// All units of a byte stream are told, in order, whichever of them stand behind
/// start codes of three bytes and whichever behind four.
pub proof fn law_all_units_of_a_stream_are_told(units: Seq<Seq<u8>>, long: Seq<bool>)
    requires
        0 < units.len() <= long.len(),
        forall|k: int|
            0 <= k < units.len() ==> (#[trigger] units[k]).len() > 0 && has_no_code(units[k]),
        mixed_stream(units, long).len() <= usize::MAX,
    ensures
        ({
            let analysis = analysis_of(mixed_stream(units, long));
            &&& analysis.format == "annex-b"@
            &&& analysis.nal_types.len() == units.len()
            &&& forall|k: int|
                0 <= k < units.len() ==> #[trigger] analysis.nal_types[k] == units[k][0] % 32
            &&& analysis.has_sps <==> exists|k: int|
                0 <= k < units.len() && (#[trigger] units[k])[0] % 32 == 7
            &&& analysis.has_pps <==> exists|k: int|
                0 <= k < units.len() && (#[trigger] units[k])[0] % 32 == 8
            &&& analysis.has_idr <==> exists|k: int|
                0 <= k < units.len() && (#[trigger] units[k])[0] % 32 == 5
        }),
{
    assert forall|k: int| 0 <= k < units.len() implies is_stream_unit(#[trigger] units[k]) by {
        let unit = units[k];
        assert(has_no_code(unit));
        assert forall|p: int| !is_code(unit, p) by {
            if is_code(unit, p) {
                assert(unit[p] == 0);
            }
        }
    }
    lemma_mixed_stream(units, long);
    let analysis = analysis_of(mixed_stream(units, long));
    let types = analysis.nal_types;
    assert(types == unit_types(units));
    assert forall|k: int| 0 <= k < units.len() implies #[trigger] types[k] == units[k][0] % 32 by {
        law_type_is_in_the_low_five_bits(units[k][0]);
    }
    law_summary_tells_what_is_there(analysis.format, types);
    assert forall|typ: u8| types.contains(typ) <==> exists|k: int|
        0 <= k < units.len() && (#[trigger] units[k])[0] % 32 == typ by {
        if types.contains(typ) {
            let k = choose|k: int| 0 <= k < types.len() && types[k] == typ;
            assert(units[k][0] % 32 == typ);
        }
        if exists|k: int| 0 <= k < units.len() && (#[trigger] units[k])[0] % 32 == typ {
            let k = choose|k: int| 0 <= k < units.len() && (#[trigger] units[k])[0] % 32 == typ;
            assert(types[k] == typ);
        }
    }
    assert(types.contains(7) <==> analysis.has_sps);
    assert(types.contains(8) <==> analysis.has_pps);
    assert(types.contains(5) <==> analysis.has_idr);
}

/// A summary keeps the format and the types as they are, and tells parameter sets
/// and IDR slices exactly where their types are among them.
pub proof fn law_summary_tells_what_is_there(format: Seq<char>, nal_types: Seq<u8>)
    ensures
        summary(format, nal_types).format == format,
        summary(format, nal_types).nal_types == nal_types,
        summary(format, nal_types).has_sps <==> nal_types.contains(7),
        summary(format, nal_types).has_pps <==> nal_types.contains(8),
        summary(format, nal_types).has_idr <==> nal_types.contains(5),
{
}

/// The view of an analysis is what it holds.
pub proof fn law_view_tells_the_analysis(analysis: H264Analysis)
    ensures
        analysis@.format == analysis.format@,
        analysis@.nal_types == analysis.nal_types@,
        analysis@.has_sps == analysis.has_sps,
        analysis@.has_pps == analysis.has_pps,
        analysis@.has_idr == analysis.has_idr,
{
}

/// The bytes of a length stand with the high byte first.
pub proof fn law_lengths_stand_high_byte_first(value: u32, data: Seq<u8>, offset: int)
    ensures
        u32_be(value).len() == 4,
        0x100_0000 * u32_be(value)[0] + 0x1_0000 * u32_be(value)[1] + 0x100 * u32_be(value)[2]
            + u32_be(value)[3] == value,
        u32_be_at(data, offset) == 0x100_0000 * data[offset] + 0x1_0000 * data[offset + 1] + 0x100
            * data[offset + 2] + data[offset + 3],
{
}

/// Length-prefixed units of any types from 1 to 23 are recognised, and all their
/// types told in order; the analysis says so where no start code shows among
/// their bytes.
pub proof fn law_all_length_prefixed_units_are_told(units: Seq<Seq<u8>>)
    requires
        units.len() > 0,
        forall|k: int|
            0 <= k < units.len() ==> {
                &&& 0 < (#[trigger] units[k]).len() <= u32::MAX
                &&& 1 <= units[k][0] % 32 <= 23
            },
    ensures
        ({
            let analysis = analysis_of(avcc_stream(units));
            &&& avcc_types(avcc_stream(units)) matches Some(types)
            &&& types.len() == units.len()
            &&& forall|k: int| 0 <= k < units.len() ==> #[trigger] types[k] == units[k][0] % 32
            &&& has_no_code(avcc_stream(units)) ==> {
                &&& analysis.format == "avcc-4byte"@
                &&& analysis.nal_types == types
            }
        }),
{
    let data = avcc_stream(units);
    assert forall|k: int| 0 <= k < units.len() implies is_avcc_unit(#[trigger] units[k]) by {
        law_type_is_in_the_low_five_bits(units[k][0]);
    }
    law_avcc_stream_is_recognised(units);
    let types = unit_types(units);
    assert forall|k: int| 0 <= k < units.len() implies #[trigger] types[k] == units[k][0] % 32 by {
        law_type_is_in_the_low_five_bits(units[k][0]);
    }
    if has_no_code(data) {
        assert forall|p: int| 0 <= p < data.len() implies !is_code(data, p) by {
            if is_code(data, p) {
                assert(data[p] == 0);
            }
        }
        lemma_no_codes_between(data, 0, data.len());
    }
}

/// What is recognised as length-prefixed units is exactly made up of such units,
/// to the last byte.
pub proof fn law_length_prefixed_units_make_up_the_data(data: Seq<u8>)
    requires
        avcc_types(data) is Some,
    ensures
        exists|units: Seq<Seq<u8>>|
            {
                &&& units.len() > 0
                &&& #[trigger] avcc_stream(units) == data
                &&& units.len() == avcc_types(data)->0.len()
                &&& forall|k: int|
                    0 <= k < units.len() ==> {
                        &&& 0 < (#[trigger] units[k]).len()
                        &&& 1 <= units[k][0] % 32 <= 23
                        &&& avcc_types(data)->0[k] == units[k][0] % 32
                    }
            },
{
    law_only_avcc_streams_are_recognised(data);
    let units = choose|units: Seq<Seq<u8>>|
        {
            &&& units.len() > 0
            &&& #[trigger] avcc_stream(units) == data
            &&& forall|k: int| 0 <= k < units.len() ==> is_avcc_unit(#[trigger] units[k])
            &&& avcc_types(data) == Some(unit_types(units))
        };
    assert(avcc_stream(units) == data);
    assert forall|k: int| 0 <= k < units.len() implies {
        &&& 0 < (#[trigger] units[k]).len()
        &&& 1 <= units[k][0] % 32 <= 23
        &&& avcc_types(data)->0[k] == units[k][0] % 32
    } by {
        assert(is_avcc_unit(units[k]));
        law_type_is_in_the_low_five_bits(units[k][0]);
    }
}

/// A length-prefixed stream is the length of its first unit with the high byte
/// first, that unit, and the stream of the others.
pub proof fn law_length_prefixed_stream_is_length_and_unit(units: Seq<Seq<u8>>)
    requires
        units.len() > 0,
        units[0].len() <= u32::MAX,
    ensures
        ({
            let stream = avcc_stream(units);
            let len = units[0].len() as int;
            &&& stream.len() >= 4 + len
            &&& 0x100_0000 * stream[0] + 0x1_0000 * stream[1] + 0x100 * stream[2] + stream[3]
                == len
            &&& stream.subrange(4, 4 + len) == units[0]
            &&& stream.skip(4 + len) == avcc_stream(units.drop_first())
        }),
        avcc_stream(Seq::empty()).len() == 0,
{
    let stream = avcc_stream(units);
    let len = units[0].len() as int;
    law_lengths_stand_high_byte_first(len as u32, stream, 0);
    assert(stream.subrange(4, 4 + len) =~= units[0]);
    assert(stream.skip(4 + len) =~= avcc_stream(units.drop_first()));
    assert(stream[0] == u32_be(len as u32)[0]);
    assert(stream[1] == u32_be(len as u32)[1]);
    assert(stream[2] == u32_be(len as u32)[2]);
    assert(stream[3] == u32_be(len as u32)[3]);
}

/// The format is told by the bytes: a byte stream exactly where there is a start
/// code, length-prefixed units exactly where there is none and the data are made
/// up of such units, a single unit exactly where neither holds and the first byte
/// has a type from 1 to 23, and otherwise unknown.
pub proof fn law_format_is_told_by_the_bytes(data: Seq<u8>)
    requires
        data.len() <= usize::MAX,
    ensures
        ({
            let analysis = analysis_of(data);
            let coded = !has_no_code(data);
            let prefixed = avcc_types(data) is Some;
            &&& coded ==> analysis.format == "annex-b"@ && annex_b_types(data) == Some(
                analysis.nal_types,
            )
            &&& !coded && prefixed ==> analysis.format == "avcc-4byte"@ && avcc_types(data) == Some(
                analysis.nal_types,
            )
            &&& !coded && !prefixed && data.len() > 0 && 1 <= data[0] % 32 <= 23 ==> {
                &&& analysis.format == "raw-single-nal"@
                &&& analysis.nal_types == seq![data[0] % 32]
            }
            &&& !coded && !prefixed && (data.len() == 0 || !(1 <= data[0] % 32 <= 23)) ==> {
                &&& analysis.format == "unknown"@
                &&& analysis.nal_types.len() == 0
            }
            &&& analysis.has_sps <==> analysis.nal_types.contains(7)
            &&& analysis.has_pps <==> analysis.nal_types.contains(8)
            &&& analysis.has_idr <==> analysis.nal_types.contains(5)
        }),
{
    if data.len() > 0 {
        law_type_is_in_the_low_five_bits(data[0]);
    }
    if has_no_code(data) {
        assert forall|p: int| 0 <= p < data.len() implies !is_code(data, p) by {
            if is_code(data, p) {
                assert(data[p] == 0);
            }
        }
        lemma_no_codes_between(data, 0, data.len());
    } else {
        let i = choose|i: int|
            0 <= i && i + 2 < data.len() && #[trigger] data[i] == 0 && data[i + 1] == 0 && data[i
                + 2] == 1;
        assert(is_code(data, i));
        lemma_start_codes(data, data.len());
        assert(all_start_codes(data).contains(
            (code_begin(data, i) as usize, (i + 3) as usize),
        ));
    }
}

} // verus!
