use vstd::prelude::*;

use crate::info::Kind;

verus! {

/// Low byte of a little-endian field.
pub open spec fn lo(v: int) -> u8 {
    (v % 256) as u8
}

/// Second byte of a little-endian field.
pub open spec fn hi(v: int) -> u8 {
    ((v / 256) % 256) as u8
}

/// Continuation flag byte of a report.
pub open spec fn flag(last: bool) -> u8 {
    if last {
        1
    } else {
        0
    }
}

/// The header layouts of image reports, each with what it carries.
#[derive(Clone, Copy, Debug, PartialEq, Eq, Structural)]
pub enum ReportHeader {
    /// Key image of the first 15-key model: pages counted from one.
    KeyLegacyLarge(u8),
    /// Key image of the 6-key models: pages counted from zero.
    KeyLegacySmall(u8),
    /// Key image of every other model.
    KeyModern(u8),
    /// A region of the touch strip.
    LcdRegion { x: u16, y: u16, w: u16, h: u16 },
    /// The whole screen of a strip-only model.
    LcdFill,
}

/// The header bytes of one report: page number, payload length and last flag.
pub open spec fn header_bytes(h: ReportHeader, page: int, len: int, last: bool) -> Seq<u8> {
    match h {
        ReportHeader::KeyLegacyLarge(key) => seq![2u8, 1u8, lo(page + 1), 0u8, flag(last), (key + 1) as u8]
            + Seq::new(10, |i: int| 0u8),
        ReportHeader::KeyLegacySmall(key) => seq![2u8, 1u8, lo(page), 0u8, flag(last), (key + 1) as u8]
            + Seq::new(10, |i: int| 0u8),
        ReportHeader::KeyModern(key) => seq![2u8, 7u8, key, flag(last), lo(len), hi(len), lo(page), hi(page)],
        ReportHeader::LcdRegion { x, y, w, h } => seq![
            2u8,
            0x0cu8,
            lo(x as int),
            hi(x as int),
            lo(y as int),
            hi(y as int),
            lo(w as int),
            hi(w as int),
            lo(h as int),
            hi(h as int),
            flag(last),
            lo(page),
            hi(page),
            lo(len),
            hi(len),
            0u8,
        ],
        ReportHeader::LcdFill => seq![2u8, 0x0bu8, 0u8, flag(last), lo(len), hi(len), lo(page), hi(page)],
    }
}

/// Length of the header, whatever it carries.
pub open spec fn header_len(h: ReportHeader) -> nat {
    match h {
        ReportHeader::KeyLegacyLarge(_) | ReportHeader::KeyLegacySmall(_) | ReportHeader::LcdRegion {
            ..
        } => 16,
        _ => 8,
    }
}

/// Whether a header can be built: a legacy key index must leave room for the one-based index.
pub open spec fn header_ok(h: ReportHeader) -> bool {
    match h {
        ReportHeader::KeyLegacyLarge(key) | ReportHeader::KeyLegacySmall(key) => key < 255,
        _ => true,
    }
}

/// Builds the header of one report.
pub fn build_header(h: ReportHeader, page: usize, len: usize, last: bool) -> (r: Vec<u8>)
    requires
        header_ok(h),
    ensures
        r@ == header_bytes(h, page as int, len as int, last),
        r@.len() == header_len(h),
{
    let f: u8 = if last {
        1
    } else {
        0
    };
    let p_lo: u8 = (page % 256) as u8;
    let p_hi: u8 = ((page / 256) % 256) as u8;
    let l_lo: u8 = (len % 256) as u8;
    let l_hi: u8 = ((len / 256) % 256) as u8;
    let r = match h {
        ReportHeader::KeyLegacyLarge(key) => {
            let p1: u8 = if page % 256 == 255 {
                0
            } else {
                p_lo + 1
            };
            assert(lo(page + 1) == p1) by {
                assert((page + 1) % 256 == if page % 256 == 255 {
                    0
                } else {
                    page % 256 + 1
                });
            }
            vec![2u8, 1, p1, 0, f, key + 1, 0, 0, 0, 0, 0, 0, 0, 0, 0, 0]
        },
        ReportHeader::KeyLegacySmall(key) => vec![2u8, 1, p_lo, 0, f, key + 1, 0, 0, 0, 0, 0, 0, 0, 0, 0, 0],
        ReportHeader::KeyModern(key) => vec![2u8, 7, key, f, l_lo, l_hi, p_lo, p_hi],
        ReportHeader::LcdRegion { x, y, w, h } => vec![
            2u8,
            0x0c,
            (x % 256) as u8,
            (x / 256) as u8,
            (y % 256) as u8,
            (y / 256) as u8,
            (w % 256) as u8,
            (w / 256) as u8,
            (h % 256) as u8,
            (h / 256) as u8,
            f,
            p_lo,
            p_hi,
            l_lo,
            l_hi,
            0,
        ],
        ReportHeader::LcdFill => vec![2u8, 0x0b, 0, f, l_lo, l_hi, p_lo, p_hi],
    };
    assert(r@ =~= header_bytes(h, page as int, len as int, last));
    r
}

/// Sizes of the reports that carry one image: total length, and payload per report.
#[derive(Clone, Copy, Debug, PartialEq, Eq, Structural)]
pub struct WriteImageParameters {
    /// Length of every report, header and padding included
    pub image_report_length: usize,
    /// Most payload bytes that one report carries
    pub image_report_payload_length: usize,
}

/// Report length for key images of a model.
pub open spec fn key_report_length(kind: Kind) -> usize {
    match kind {
        Kind::Original => 8191,
        _ => 1024,
    }
}

/// Header length for key images of a model.
pub open spec fn key_header_length(kind: Kind) -> usize {
    if kind.is_legacy() {
        16
    } else {
        8
    }
}

/// Report sizes for a key image of `len` bytes: the first model splits every image in
/// two halves (the first one taking an odd byte), the others fill each report up to its length.
pub open spec fn key_parameters(kind: Kind, len: usize) -> WriteImageParameters {
    WriteImageParameters {
        image_report_length: key_report_length(kind),
        image_report_payload_length: match kind {
            Kind::Original => ((len + 1) / 2) as usize,
            _ => (key_report_length(kind) - key_header_length(kind)) as usize,
        },
    }
}

impl WriteImageParameters {
    /// Report sizes for sending a key image of `image_data_len` bytes to a model.
    pub fn for_key(kind: Kind, image_data_len: usize) -> (r: Self)
        ensures
            r == key_parameters(kind, image_data_len),
    {
        let image_report_length: usize = match kind {
            Kind::Original => 8191,
            _ => 1024,
        };
        let image_report_header_length: usize = match kind {
            Kind::Original | Kind::Mini | Kind::MiniMk2 | Kind::MiniMk2Module => 16,
            _ => 8,
        };
        let image_report_payload_length: usize = match kind {
            Kind::Original => image_data_len / 2 + image_data_len % 2,
            _ => image_report_length - image_report_header_length,
        };
        WriteImageParameters { image_report_length, image_report_payload_length }
    }
}

/// The payload split into consecutive pieces of at most `p` bytes, the last one possibly shorter.
pub open spec fn chunks(data: Seq<u8>, p: nat) -> Seq<Seq<u8>>
    decreases data.len(),
{
    if data.len() == 0 || p == 0 {
        Seq::empty()
    } else if data.len() <= p {
        seq![data]
    } else {
        seq![data.take(p as int)] + chunks(data.skip(p as int), p)
    }
}

/// One report: header, payload piece, then zeros up to the report length.
pub open spec fn frame(h: ReportHeader, page: int, piece: Seq<u8>, last: bool, total: nat) -> Seq<u8> {
    let head = header_bytes(h, page, piece.len() as int, last) + piece;
    head + Seq::new((total - head.len()) as nat, |i: int| 0u8)
}

/// Every report that carries `data`, in the order they are sent.
pub open spec fn image_reports(data: Seq<u8>, params: WriteImageParameters, h: ReportHeader) -> Seq<
    Seq<u8>,
> {
    let cs = chunks(data, params.image_report_payload_length as nat);
    Seq::new(
        cs.len(),
        |j: int| frame(h, j, cs[j], j == cs.len() - 1, params.image_report_length as nat),
    )
}

/// Whether the sizes let every report hold its header and payload, and let the split progress.
pub open spec fn parameters_fit(
    params: WriteImageParameters,
    h: ReportHeader,
    data_len: nat,
) -> bool {
    &&& data_len == 0 || params.image_report_payload_length > 0
    &&& header_len(h) + params.image_report_payload_length <= params.image_report_length
}

/// The views of a list of reports.
pub open spec fn views(v: Seq<Vec<u8>>) -> Seq<Seq<u8>> {
    v.map_values(|x: Vec<u8>| x@)
}

/// Splitting gives `ceil(n / p)` pieces, none empty and none over `p` bytes, whose
/// concatenation is the payload; only the last one may be shorter than `p`.
pub proof fn lemma_chunks(data: Seq<u8>, p: nat)
    requires
        p > 0,
    ensures
        chunks(data, p).len() == (data.len() + p - 1) / (p as int),
        chunks(data, p).flatten() == data,
        forall|j: int|
            0 <= j < chunks(data, p).len() ==> 0 < (#[trigger] chunks(data, p)[j]).len() <= p,
        forall|j: int|
            0 <= j < chunks(data, p).len() - 1 ==> (#[trigger] chunks(data, p)[j]).len() == p,
    decreases data.len(),
{
    let cs = chunks(data, p);
    let n = data.len() as int;
    let pi = p as int;
    if n == 0 {
        assert((n + pi - 1) / pi == 0) by (nonlinear_arith)
            requires
                n == 0,
                pi > 0,
        ;
    } else if n <= pi {
        assert((n + pi - 1) / pi == 1) by (nonlinear_arith)
            requires
                0 < n <= pi,
        ;
        seq![data].lemma_flatten_one_element();
    } else {
        let rest = data.skip(pi);
        lemma_chunks(rest, p);
        let rcs = chunks(rest, p);
        assert(cs == seq![data.take(pi)] + rcs);
        assert((n + pi - 1) / pi == 1 + (n - pi + pi - 1) / pi) by (nonlinear_arith)
            requires
                n > pi > 0,
        {
            assert(n + pi - 1 == pi + (n - 1));
        }
        assert(cs.drop_first() =~= rcs);
        assert(cs.flatten() == data.take(pi) + rcs.flatten());
        assert(data.take(pi) + rest =~= data);
        assert forall|j: int| 0 <= j < cs.len() implies 0 < (#[trigger] cs[j]).len() <= p by {
            if j > 0 {
                assert(cs[j] == rcs[j - 1]);
            }
        }
        assert forall|j: int| 0 <= j < cs.len() - 1 implies (#[trigger] cs[j]).len() == p by {
            if j > 0 {
                assert(cs[j] == rcs[j - 1]);
            }
        }
    }
}

/// The split of a payload, seen from an offset that is a whole number of pieces in.
proof fn lemma_chunks_step(data: Seq<u8>, p: nat)
    requires
        p > 0,
        data.len() > 0,
    ensures
        chunks(data, p) == seq![data.take(if data.len() <= p { data.len() as int } else { p as int })]
            + chunks(data.skip(if data.len() <= p { data.len() as int } else { p as int }), p),
{
    if data.len() <= p {
        assert(data.take(data.len() as int) =~= data);
        assert(data.skip(data.len() as int).len() == 0);
        assert(seq![data] + Seq::<Seq<u8>>::empty() =~= seq![data]);
    }
}

/// Builds one report from its header, a piece of the payload and zero padding.
fn frame_report(
    h: ReportHeader,
    page: usize,
    data: &[u8],
    start: usize,
    len: usize,
    last: bool,
    total: usize,
) -> (r: Vec<u8>)
    requires
        header_ok(h),
        start + len <= data@.len(),
        header_len(h) + len <= total,
    ensures
        r@ == frame(h, page as int, data@.subrange(start as int, start + len), last, total as nat),
{
    let mut buf = build_header(h, page, len, last);
    let ghost head = buf@;
    let n = data.len();
    let mut k: usize = 0;
    while k < len
        invariant
            k <= len,
            n == data@.len(),
            start + len <= data@.len(),
            buf@ == head + data@.subrange(start as int, start + k),
        decreases len - k,
    {
        buf.push(data[start + k]);
        assert(data@.subrange(start as int, start + k + 1) =~= data@.subrange(start as int, start + k)
            .push(data@[start + k]));
        k = k + 1;
    }
    let ghost body = buf@;
    while buf.len() < total
        invariant
            body.len() <= buf@.len() <= total,
            buf@ == body + Seq::new((buf@.len() - body.len()) as nat, |i: int| 0u8),
        decreases total - buf.len(),
    {
        let ghost before = buf@;
        buf.push(0u8);
        assert(buf@ =~= body + Seq::new((buf@.len() - body.len()) as nat, |i: int| 0u8));
    }
    assert(buf@ =~= frame(h, page as int, data@.subrange(start as int, start + len), last, total as nat));
    buf
}

/// Splits `data` into reports under `h`'s header layout; an empty payload gives no report.
pub fn image_data_reports(data: &[u8], params: WriteImageParameters, h: ReportHeader) -> (r: Vec<
    Vec<u8>,
>)
    requires
        header_ok(h),
        parameters_fit(params, h, data@.len()),
    ensures
        views(r@) == image_reports(data@, params, h),
{
    let l = params.image_report_length;
    let p = params.image_report_payload_length;
    let mut reports: Vec<Vec<u8>> = Vec::new();
    let mut page: usize = 0;
    let mut offset: usize = 0;
    let mut remaining: usize = data.len();
    let ghost all = chunks(data@, p as nat);
    let ghost done: Seq<Seq<u8>> = Seq::empty();
    assert(data@.skip(0) =~= data@);
    while remaining > 0
        invariant
            offset + remaining == data@.len(),
            data@.len() <= usize::MAX,
            page <= offset,
            page == done.len(),
            reports@.len() == page,
            remaining > 0 ==> p > 0,
            header_ok(h),
            header_len(h) + p <= l,
            all == chunks(data@, p as nat),
            all == done + chunks(data@.skip(offset as int), p as nat),
            forall|j: int|
                0 <= j < page ==> (#[trigger] reports@[j])@ == frame(
                    h,
                    j,
                    done[j],
                    j == all.len() - 1,
                    l as nat,
                ),
        decreases remaining,
    {
        let this_length: usize = if remaining < p {
            remaining
        } else {
            p
        };
        let last = this_length == remaining;
        let ghost rest = data@.skip(offset as int);
        proof {
            lemma_chunks_step(rest, p as nat);
            assert(rest.take(this_length as int) =~= data@.subrange(offset as int, offset + this_length));
            assert(rest.skip(this_length as int) =~= data@.skip(offset + this_length));
            let tail = chunks(data@.skip(offset + this_length), p as nat);
            assert(tail.len() == 0 <==> last) by {
                if !last {
                    lemma_chunks_step(data@.skip(offset + this_length), p as nat);
                }
            }
            assert(all.len() == page + 1 + tail.len());
        }
        let report = frame_report(h, page, data, offset, this_length, last, l);
        reports.push(report);
        proof {
            let piece = data@.subrange(offset as int, offset + this_length);
            let tail = chunks(data@.skip(offset + this_length), p as nat);
            assert(done + (seq![piece] + tail) =~= done.push(piece) + tail);
            done = done.push(piece);
        }
        offset = offset + this_length;
        remaining = remaining - this_length;
        page = page + 1;
    }
    proof {
        assert(data@.skip(offset as int).len() == 0);
        assert(done =~= all);
        assert(views(reports@) =~= image_reports(data@, params, h));
    }
    reports
}

/// The reports of a payload: `ceil(n / p)` of them, report `j` framing the `j`-th piece,
/// the pieces concatenating back to the payload, and only the last report flagged as last.
pub proof fn lemma_image_reports(data: Seq<u8>, params: WriteImageParameters, h: ReportHeader)
    requires
        params.image_report_payload_length > 0,
    ensures
        image_reports(data, params, h).len() == (data.len() + params.image_report_payload_length
            - 1) / (params.image_report_payload_length as int),
        chunks(data, params.image_report_payload_length as nat).flatten() == data,
        forall|j: int|
            0 <= j < image_reports(data, params, h).len() ==> #[trigger] image_reports(
                data,
                params,
                h,
            )[j] == frame(
                h,
                j,
                chunks(data, params.image_report_payload_length as nat)[j],
                j == image_reports(data, params, h).len() - 1,
                params.image_report_length as nat,
            ),
{
    lemma_chunks(data, params.image_report_payload_length as nat);
}

/// Length of the `j`-th piece of an `n`-byte payload cut every `p` bytes.
pub open spec fn piece_len(n: int, p: int, j: int) -> int {
    if n - j * p < p {
        n - j * p
    } else {
        p
    }
}

/// The `j`-th piece is the payload from `j * p` on, `piece_len` bytes long.
pub proof fn lemma_chunk_at(data: Seq<u8>, p: nat, j: int)
    requires
        p > 0,
        0 <= j < chunks(data, p).len(),
    ensures
        0 <= j * p < data.len(),
        chunks(data, p)[j] == data.subrange(j * p, j * p + piece_len(data.len() as int, p as int, j)),
    decreases data.len(),
{
    let n = data.len() as int;
    let pi = p as int;
    if n <= pi {
        assert(j == 0);
        assert(data.subrange(0, n) =~= data);
    } else if j == 0 {
        assert(data.take(pi) =~= data.subrange(0, pi));
    } else {
        let rest = data.skip(pi);
        assert(chunks(data, p)[j] == chunks(rest, p)[j - 1]);
        lemma_chunk_at(rest, p, j - 1);
        assert((j - 1) * pi + pi == j * pi) by (nonlinear_arith);
        assert(0 <= (j - 1) * pi) by (nonlinear_arith)
            requires
                j >= 1,
                pi > 0,
        ;
        assert(piece_len(n - pi, pi, j - 1) == piece_len(n, pi, j));
        assert(rest.subrange((j - 1) * pi, (j - 1) * pi + piece_len(n - pi, pi, j - 1)) =~= data.subrange(
            j * pi,
            j * pi + piece_len(n, pi, j),
        ));
    }
}

/// Each header is as long as its layout says.
pub proof fn lemma_header_len(h: ReportHeader, page: int, len: int, last: bool)
    ensures
        header_bytes(h, page, len, last).len() == header_len(h),
{
}

/// Report `j` of a payload, in the words of the chunking loop: it is `L` bytes long, its
/// header carries page `j`, the piece length and a last flag set only on the final
/// report, and after the header stands the payload from `j * p`, `piece_len` bytes.
pub proof fn lemma_report_slices(data: Seq<u8>, params: WriteImageParameters, h: ReportHeader, j: int)
    requires
        params.image_report_payload_length > 0,
        header_len(h) + params.image_report_payload_length <= params.image_report_length,
        0 <= j < image_reports(data, params, h).len(),
    ensures
        ({
            let p = params.image_report_payload_length as int;
            let k = image_reports(data, params, h).len();
            let len = piece_len(data.len() as int, p, j);
            let r = image_reports(data, params, h)[j];
            let hl = header_len(h) as int;
            &&& k == (data.len() + p - 1) / p
            &&& r.len() == params.image_report_length
            &&& r.subrange(0, hl) == header_bytes(h, j, len, j == k - 1)
            &&& r.subrange(hl, hl + len) == data.subrange(j * p, j * p + len)
        }),
{
    let p = params.image_report_payload_length as nat;
    lemma_chunks(data, p);
    lemma_chunk_at(data, p, j);
    let piece = chunks(data, p)[j];
    let k = image_reports(data, params, h).len();
    let hd = header_bytes(h, j, piece.len() as int, j == k - 1);
    lemma_header_len(h, j, piece.len() as int, j == k - 1);
    let r = image_reports(data, params, h)[j];
    let hl = header_len(h) as int;
    assert(r == frame(h, j, piece, j == k - 1, params.image_report_length as nat));
    assert(r.subrange(0, hl) =~= hd);
    assert(r.subrange(hl, hl + piece.len()) =~= piece);
}

/// With the payload split in halves (the first half taking an odd byte), a payload of
/// at least two bytes travels in exactly two reports.
pub proof fn lemma_halves(data: Seq<u8>)
    requires
        data.len() >= 2,
    ensures
        chunks(data, (data.len() + 1) / 2).len() == 2,
{
    let p = (data.len() + 1) / 2;
    lemma_chunks(data, p);
    let n = data.len() as int;
    let pi = p as int;
    assert(pi < n && n <= 2 * pi && pi >= 1);
    assert((n + pi - 1) / pi == 2) by (nonlinear_arith)
        requires
            pi < n,
            n <= 2 * pi,
            pi >= 1,
    {
        assert(2 * pi <= n + pi - 1 < 3 * pi);
    }
}

} // verus!
