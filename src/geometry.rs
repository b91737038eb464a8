//! Renderable shapes in data space: x is a bar index in tenths of an index
//! step, y a price in ticks or a volume in units.
use vstd::prelude::*;
use crate::market::{Bar, HistoryData, MAX_BARS, scan_ix, search_ix_by_dt};
use crate::matcher::{Direction, TradePair};

verus! {

/// Half the width of a candle body, in tenths of an index step.
pub const HALF_BODY: i64 = 4;

#[derive(Clone, Copy, Debug, PartialEq, Eq, Structural)]
pub struct Vertex {
    pub x_tenths: i64,
    pub y: i64,
}

/// Candles by kind: `up` outlined bodies with wicks (line list), `down`
/// filled bodies (triangle list) and their wicks `down_hl` (line list),
/// `stay` flat bars (line list).
pub struct CandleVertex {
    pub up: Vec<Vertex>,
    pub down: Vec<Vertex>,
    pub down_hl: Vec<Vertex>,
    pub stay: Vec<Vertex>,
}

/// Volume bars from zero to each bar's volume, by the bar's kind.
pub struct VolumeVertex {
    pub up: Vec<Vertex>,
    pub down: Vec<Vertex>,
    pub stay: Vec<Vertex>,
}

/// Trade overlays: connectors of profitable and losing pairs (line lists),
/// marker triangles for each leg, and a label anchor with the volume.
pub struct TradePairVertex {
    pub profit: Vec<Vertex>,
    pub loss: Vec<Vertex>,
    pub buy: Vec<Vertex>,
    pub sell: Vec<Vertex>,
    pub short: Vec<Vertex>,
    pub cover: Vec<Vertex>,
    pub buy_text: Vec<(Vertex, u64)>,
    pub sell_text: Vec<(Vertex, u64)>,
    pub short_text: Vec<(Vertex, u64)>,
    pub cover_text: Vec<(Vertex, u64)>,
}

#[derive(Clone, Copy, Debug, PartialEq, Eq, Structural)]
pub enum GeometryError {
    /// A trade pair's datetime matches no bar at or after the scan position.
    DatetimeNotFound,
}

pub open spec fn vx(x: int, y: int) -> Vertex {
    Vertex { x_tenths: x as i64, y: y as i64 }
}

/// The pieces `f(0, s[0]) + f(1, s[1]) + ...`, in order.
pub open spec fn concat_ix<A, B>(s: Seq<A>, f: spec_fn(int, A) -> Seq<B>) -> Seq<B>
    decreases s.len(),
{
    if s.len() == 0 {
        Seq::empty()
    } else {
        concat_ix(s.drop_last(), f) + f(s.len() - 1, s.last())
    }
}

proof fn lemma_concat_ix_step<A, B>(s: Seq<A>, f: spec_fn(int, A) -> Seq<B>, i: int)
    requires
        0 <= i < s.len(),
    ensures
        concat_ix(s.take(i + 1), f) == concat_ix(s.take(i), f) + f(i, s[i]),
{
    assert(s.take(i + 1).drop_last() =~= s.take(i));
}

proof fn lemma_concat_ix_push<A, B>(s: Seq<A>, f: spec_fn(int, A) -> Seq<B>, a: A)
    ensures
        concat_ix(s.push(a), f) == concat_ix(s, f) + f(s.len() as int, a),
{
    assert(s.push(a).drop_last() =~= s);
}

/// Outlined body (four edges) and the wick above and below it, of a rising bar.
pub open spec fn candle_up(i: int, b: Bar) -> Seq<Vertex> {
    let x = 10 * i;
    if b.close > b.open {
        seq![
            vx(x - HALF_BODY, b.close as int), vx(x + HALF_BODY, b.close as int),
            vx(x + HALF_BODY, b.close as int), vx(x + HALF_BODY, b.open as int),
            vx(x + HALF_BODY, b.open as int), vx(x - HALF_BODY, b.open as int),
            vx(x - HALF_BODY, b.open as int), vx(x - HALF_BODY, b.close as int),
            vx(x, b.high as int), vx(x, b.close as int),
            vx(x, b.low as int), vx(x, b.open as int),
        ]
    } else {
        seq![]
    }
}

/// Filled body (two triangles) of a falling bar.
pub open spec fn candle_down(i: int, b: Bar) -> Seq<Vertex> {
    let x = 10 * i;
    if b.close < b.open {
        seq![
            vx(x - HALF_BODY, b.open as int), vx(x - HALF_BODY, b.close as int), vx(x + HALF_BODY, b.open as int),
            vx(x + HALF_BODY, b.open as int), vx(x - HALF_BODY, b.close as int), vx(x + HALF_BODY, b.close as int),
        ]
    } else {
        seq![]
    }
}

/// High-low wick of a falling bar.
pub open spec fn candle_down_hl(i: int, b: Bar) -> Seq<Vertex> {
    if b.close < b.open {
        seq![vx(10 * i, b.high as int), vx(10 * i, b.low as int)]
    } else {
        seq![]
    }
}

/// Body line and high-low wick of a flat bar.
pub open spec fn candle_stay(i: int, b: Bar) -> Seq<Vertex> {
    let x = 10 * i;
    if b.close == b.open {
        seq![vx(x - HALF_BODY, b.open as int), vx(x + HALF_BODY, b.close as int), vx(x, b.high as int), vx(x, b.low as int)]
    } else {
        seq![]
    }
}

/// Outline of a volume bar, as four edges.
pub open spec fn volume_outline(i: int, b: Bar) -> Seq<Vertex> {
    let x = 10 * i;
    let v = b.volume as int;
    seq![
        vx(x - HALF_BODY, v), vx(x + HALF_BODY, v), vx(x + HALF_BODY, v), vx(x + HALF_BODY, 0),
        vx(x + HALF_BODY, 0), vx(x - HALF_BODY, 0), vx(x - HALF_BODY, 0), vx(x - HALF_BODY, v),
    ]
}

pub open spec fn volume_up(i: int, b: Bar) -> Seq<Vertex> {
    if b.close > b.open { volume_outline(i, b) } else { seq![] }
}

/// Filled volume bar (two triangles) of a falling bar.
pub open spec fn volume_down(i: int, b: Bar) -> Seq<Vertex> {
    let x = 10 * i;
    let v = b.volume as int;
    if b.close < b.open {
        seq![
            vx(x - HALF_BODY, v), vx(x - HALF_BODY, 0), vx(x + HALF_BODY, v),
            vx(x + HALF_BODY, v), vx(x - HALF_BODY, 0), vx(x + HALF_BODY, 0),
        ]
    } else {
        seq![]
    }
}

pub open spec fn volume_stay(i: int, b: Bar) -> Seq<Vertex> {
    if b.close == b.open { volume_outline(i, b) } else { seq![] }
}

pub open spec fn candle_up_fn() -> spec_fn(int, Bar) -> Seq<Vertex> { |i: int, b: Bar| candle_up(i, b) }
pub open spec fn candle_down_fn() -> spec_fn(int, Bar) -> Seq<Vertex> { |i: int, b: Bar| candle_down(i, b) }
pub open spec fn candle_down_hl_fn() -> spec_fn(int, Bar) -> Seq<Vertex> { |i: int, b: Bar| candle_down_hl(i, b) }
pub open spec fn candle_stay_fn() -> spec_fn(int, Bar) -> Seq<Vertex> { |i: int, b: Bar| candle_stay(i, b) }
pub open spec fn volume_up_fn() -> spec_fn(int, Bar) -> Seq<Vertex> { |i: int, b: Bar| volume_up(i, b) }
pub open spec fn volume_down_fn() -> spec_fn(int, Bar) -> Seq<Vertex> { |i: int, b: Bar| volume_down(i, b) }
pub open spec fn volume_stay_fn() -> spec_fn(int, Bar) -> Seq<Vertex> { |i: int, b: Bar| volume_stay(i, b) }

fn vertex(x: i64, y: i64) -> (r: Vertex)
    ensures
        r == vx(x as int, y as int),
{
    Vertex { x_tenths: x, y }
}

fn push_candle_up(out: &mut Vec<Vertex>, x: i64, b: Bar, Ghost(i): Ghost<int>)
    requires
        x == 10 * i,
        -MAX_BARS * 10 <= x <= MAX_BARS * 10,
        b.close > b.open,
    ensures
        final(out)@ == old(out)@ + candle_up(i, b),
{
    let (l, r) = (x - HALF_BODY, x + HALF_BODY);
    let ghost out0 = out@;
    out.push(vertex(l, b.close));
    out.push(vertex(r, b.close));
    out.push(vertex(r, b.close));
    out.push(vertex(r, b.open));
    out.push(vertex(r, b.open));
    out.push(vertex(l, b.open));
    out.push(vertex(l, b.open));
    out.push(vertex(l, b.close));
    out.push(vertex(x, b.high));
    out.push(vertex(x, b.close));
    out.push(vertex(x, b.low));
    out.push(vertex(x, b.open));
    assert(out@ =~= out0 + candle_up(i, b));
}

fn push_candle_down(body: &mut Vec<Vertex>, wick: &mut Vec<Vertex>, x: i64, b: Bar, Ghost(i): Ghost<int>)
    requires
        x == 10 * i,
        -MAX_BARS * 10 <= x <= MAX_BARS * 10,
        b.close < b.open,
    ensures
        final(body)@ == old(body)@ + candle_down(i, b),
        final(wick)@ == old(wick)@ + candle_down_hl(i, b),
{
    let (l, r) = (x - HALF_BODY, x + HALF_BODY);
    let ghost (body0, wick0) = (body@, wick@);
    body.push(vertex(l, b.open));
    body.push(vertex(l, b.close));
    body.push(vertex(r, b.open));
    body.push(vertex(r, b.open));
    body.push(vertex(l, b.close));
    body.push(vertex(r, b.close));
    wick.push(vertex(x, b.high));
    wick.push(vertex(x, b.low));
    assert(body@ =~= body0 + candle_down(i, b));
    assert(wick@ =~= wick0 + candle_down_hl(i, b));
}

fn push_candle_stay(out: &mut Vec<Vertex>, x: i64, b: Bar, Ghost(i): Ghost<int>)
    requires
        x == 10 * i,
        -MAX_BARS * 10 <= x <= MAX_BARS * 10,
        b.close == b.open,
    ensures
        final(out)@ == old(out)@ + candle_stay(i, b),
{
    let ghost out0 = out@;
    out.push(vertex(x - HALF_BODY, b.open));
    out.push(vertex(x + HALF_BODY, b.close));
    out.push(vertex(x, b.high));
    out.push(vertex(x, b.low));
    assert(out@ =~= out0 + candle_stay(i, b));
}

/// Candle shapes for every bar, each list in bar order.
pub fn candle_vertex(history: &HistoryData) -> (r: CandleVertex)
    requires
        history.wf(),
    ensures
        r.up@ == concat_ix(history@, candle_up_fn()),
        r.down@ == concat_ix(history@, candle_down_fn()),
        r.down_hl@ == concat_ix(history@, candle_down_hl_fn()),
        r.stay@ == concat_ix(history@, candle_stay_fn()),
{
    let mut up: Vec<Vertex> = Vec::new();
    let mut down: Vec<Vertex> = Vec::new();
    let mut down_hl: Vec<Vertex> = Vec::new();
    let mut stay: Vec<Vertex> = Vec::new();
    let n = history.bar_count();
    for i in 0..n
        invariant
            n == history@.len(),
            history.wf(),
            up@ == concat_ix(history@.take(i as int), candle_up_fn()),
            down@ == concat_ix(history@.take(i as int), candle_down_fn()),
            down_hl@ == concat_ix(history@.take(i as int), candle_down_hl_fn()),
            stay@ == concat_ix(history@.take(i as int), candle_stay_fn()),
    {
        let b = history.bar(i);
        let x: i64 = 10 * (i as i64);
        proof {
            lemma_concat_ix_step(history@, candle_up_fn(), i as int);
            lemma_concat_ix_step(history@, candle_down_fn(), i as int);
            lemma_concat_ix_step(history@, candle_down_hl_fn(), i as int);
            lemma_concat_ix_step(history@, candle_stay_fn(), i as int);
        }
        let ghost (up0, down0, hl0, stay0) = (up@, down@, down_hl@, stay@);
        if b.close > b.open {
            push_candle_up(&mut up, x, b, Ghost(i as int));
        } else if b.close < b.open {
            push_candle_down(&mut down, &mut down_hl, x, b, Ghost(i as int));
        } else {
            push_candle_stay(&mut stay, x, b, Ghost(i as int));
        }
        assert(up@ =~= up0 + candle_up(i as int, b));
        assert(down@ =~= down0 + candle_down(i as int, b));
        assert(down_hl@ =~= hl0 + candle_down_hl(i as int, b));
        assert(stay@ =~= stay0 + candle_stay(i as int, b));
    }
    assert(history@.take(n as int) =~= history@);
    CandleVertex { up, down, down_hl, stay }
}

fn push_volume_outline(out: &mut Vec<Vertex>, x: i64, v: i64, Ghost(i): Ghost<int>, Ghost(b): Ghost<Bar>)
    requires
        x == 10 * i,
        v == b.volume,
        -MAX_BARS * 10 <= x <= MAX_BARS * 10,
    ensures
        final(out)@ == old(out)@ + volume_outline(i, b),
{
    let (l, r) = (x - HALF_BODY, x + HALF_BODY);
    let ghost out0 = out@;
    out.push(vertex(l, v));
    out.push(vertex(r, v));
    out.push(vertex(r, v));
    out.push(vertex(r, 0));
    out.push(vertex(r, 0));
    out.push(vertex(l, 0));
    out.push(vertex(l, 0));
    out.push(vertex(l, v));
    assert(out@ =~= out0 + volume_outline(i, b));
}

/// Volume shapes for every bar, each list in bar order.
pub fn volume_vertex(history: &HistoryData) -> (r: VolumeVertex)
    requires
        history.wf(),
    ensures
        r.up@ == concat_ix(history@, volume_up_fn()),
        r.down@ == concat_ix(history@, volume_down_fn()),
        r.stay@ == concat_ix(history@, volume_stay_fn()),
{
    let mut up: Vec<Vertex> = Vec::new();
    let mut down: Vec<Vertex> = Vec::new();
    let mut stay: Vec<Vertex> = Vec::new();
    let n = history.bar_count();
    for i in 0..n
        invariant
            n == history@.len(),
            history.wf(),
            up@ == concat_ix(history@.take(i as int), volume_up_fn()),
            down@ == concat_ix(history@.take(i as int), volume_down_fn()),
            stay@ == concat_ix(history@.take(i as int), volume_stay_fn()),
    {
        let b = history.bar(i);
        let x: i64 = 10 * (i as i64);
        let (l, r) = (x - HALF_BODY, x + HALF_BODY);
        proof {
            lemma_concat_ix_step(history@, volume_up_fn(), i as int);
            lemma_concat_ix_step(history@, volume_down_fn(), i as int);
            lemma_concat_ix_step(history@, volume_stay_fn(), i as int);
        }
        let ghost (up0, down0, stay0) = (up@, down@, stay@);
        if b.close > b.open {
            push_volume_outline(&mut up, x, b.volume, Ghost(i as int), Ghost(b));
        } else if b.close < b.open {
            down.push(vertex(l, b.volume));
            down.push(vertex(l, 0));
            down.push(vertex(r, b.volume));
            down.push(vertex(r, b.volume));
            down.push(vertex(l, 0));
            down.push(vertex(r, 0));
        } else {
            push_volume_outline(&mut stay, x, b.volume, Ghost(i as int), Ghost(b));
        }
        assert(up@ =~= up0 + volume_up(i as int, b));
        assert(down@ =~= down0 + volume_down(i as int, b));
        assert(stay@ =~= stay0 + volume_stay(i as int, b));
    }
    assert(history@.take(n as int) =~= history@);
    VolumeVertex { up, down, stay }
}

/// A trade pair with the bar indices of its open and close.
pub type Located = (TradePair, int, int);

/// Where the scan for the next pair starts: the previous pair's open bar.
pub open spec fn scan_start(loc: Seq<Located>) -> int {
    if loc.len() == 0 { 0 } else { loc.last().1 }
}

/// The bars of each pair's open and close datetimes, scanning forward from
/// the previous pair's open bar; `None` when some datetime is not found.
pub open spec fn locate_pairs(bars: Seq<Bar>, pairs: Seq<TradePair>) -> Option<Seq<Located>>
    decreases pairs.len(),
{
    if pairs.len() == 0 {
        Some(seq![])
    } else {
        match locate_pairs(bars, pairs.drop_last()) {
            None => None,
            Some(loc) => {
                let p = pairs.last();
                let start = scan_start(loc);
                match (scan_ix(bars, p.open_dt, start), scan_ix(bars, p.close_dt, start)) {
                    (Some(o), Some(c)) => Some(loc.push((p, o, c))),
                    _ => None,
                }
            },
        }
    }
}

/// A long pair closed at or above its open price, or a short one at or below.
pub open spec fn is_profit(p: TradePair) -> bool {
    (p.direction == Direction::Long && p.close_price >= p.open_price)
        || (p.direction == Direction::Short && p.close_price <= p.open_price)
}

pub open spec fn connector(l: Located) -> Seq<Vertex> {
    seq![vx(10 * l.1, l.0.open_price as int), vx(10 * l.2, l.0.close_price as int)]
}

pub open spec fn profit_piece(l: Located) -> Seq<Vertex> {
    if is_profit(l.0) { connector(l) } else { seq![] }
}

pub open spec fn loss_piece(l: Located) -> Seq<Vertex> {
    if is_profit(l.0) { seq![] } else { connector(l) }
}

/// Where a leg's marker sits: a long open or a short close at the bar's low,
/// a long close or a short open at its high.
pub open spec fn open_anchor(bars: Seq<Bar>, l: Located) -> Vertex {
    if l.0.direction == Direction::Long { vx(10 * l.1, bars[l.1].low as int) } else { vx(10 * l.1, bars[l.1].high as int) }
}

pub open spec fn close_anchor(bars: Seq<Bar>, l: Located) -> Vertex {
    if l.0.direction == Direction::Long { vx(10 * l.2, bars[l.2].high as int) } else { vx(10 * l.2, bars[l.2].low as int) }
}

pub open spec fn triple(v: Vertex) -> Seq<Vertex> {
    seq![v, v, v]
}

/// The open marker of a pair of direction `d`.
pub open spec fn open_marker(bars: Seq<Bar>, l: Located, d: Direction) -> Seq<Vertex> {
    if l.0.direction == d { triple(open_anchor(bars, l)) } else { seq![] }
}

pub open spec fn close_marker(bars: Seq<Bar>, l: Located, d: Direction) -> Seq<Vertex> {
    if l.0.direction == d { triple(close_anchor(bars, l)) } else { seq![] }
}

pub open spec fn open_label(bars: Seq<Bar>, l: Located, d: Direction) -> Seq<(Vertex, u64)> {
    if l.0.direction == d { seq![(open_anchor(bars, l), l.0.volume)] } else { seq![] }
}

pub open spec fn close_label(bars: Seq<Bar>, l: Located, d: Direction) -> Seq<(Vertex, u64)> {
    if l.0.direction == d { seq![(close_anchor(bars, l), l.0.volume)] } else { seq![] }
}

pub open spec fn profit_fn() -> spec_fn(int, Located) -> Seq<Vertex> { |i: int, l: Located| profit_piece(l) }
pub open spec fn loss_fn() -> spec_fn(int, Located) -> Seq<Vertex> { |i: int, l: Located| loss_piece(l) }
pub open spec fn open_marker_fn(bars: Seq<Bar>, d: Direction) -> spec_fn(int, Located) -> Seq<Vertex> {
    |i: int, l: Located| open_marker(bars, l, d)
}
pub open spec fn close_marker_fn(bars: Seq<Bar>, d: Direction) -> spec_fn(int, Located) -> Seq<Vertex> {
    |i: int, l: Located| close_marker(bars, l, d)
}
pub open spec fn open_label_fn(bars: Seq<Bar>, d: Direction) -> spec_fn(int, Located) -> Seq<(Vertex, u64)> {
    |i: int, l: Located| open_label(bars, l, d)
}
pub open spec fn close_label_fn(bars: Seq<Bar>, d: Direction) -> spec_fn(int, Located) -> Seq<(Vertex, u64)> {
    |i: int, l: Located| close_label(bars, l, d)
}

/// The ten lists of `t` are the pieces of the located pairs `loc`, in order.
pub open spec fn trade_geometry_of(t: TradePairVertex, bars: Seq<Bar>, loc: Seq<Located>) -> bool {
    &&& t.profit@ == concat_ix(loc, profit_fn())
    &&& t.loss@ == concat_ix(loc, loss_fn())
    &&& t.buy@ == concat_ix(loc, open_marker_fn(bars, Direction::Long))
    &&& t.sell@ == concat_ix(loc, close_marker_fn(bars, Direction::Long))
    &&& t.short@ == concat_ix(loc, open_marker_fn(bars, Direction::Short))
    &&& t.cover@ == concat_ix(loc, close_marker_fn(bars, Direction::Short))
    &&& t.buy_text@ == concat_ix(loc, open_label_fn(bars, Direction::Long))
    &&& t.sell_text@ == concat_ix(loc, close_label_fn(bars, Direction::Long))
    &&& t.short_text@ == concat_ix(loc, open_label_fn(bars, Direction::Short))
    &&& t.cover_text@ == concat_ix(loc, close_label_fn(bars, Direction::Short))
}

proof fn lemma_locate_none(bars: Seq<Bar>, pairs: Seq<TradePair>, k: int)
    requires
        0 <= k <= pairs.len(),
        locate_pairs(bars, pairs.take(k)) is None,
    ensures
        locate_pairs(bars, pairs) is None,
    decreases pairs.len() - k,
{
    if k < pairs.len() {
        assert(pairs.take(k + 1).drop_last() =~= pairs.take(k));
        lemma_locate_none(bars, pairs, k + 1);
    } else {
        assert(pairs.take(k) =~= pairs);
    }
}

fn empty_trade_geometry() -> (r: TradePairVertex)
    ensures
        forall|bars: Seq<Bar>| trade_geometry_of(r, bars, seq![]),
{
    TradePairVertex {
        profit: Vec::new(),
        loss: Vec::new(),
        buy: Vec::new(),
        sell: Vec::new(),
        short: Vec::new(),
        cover: Vec::new(),
        buy_text: Vec::new(),
        sell_text: Vec::new(),
        short_text: Vec::new(),
        cover_text: Vec::new(),
    }
}

/// Appends the shapes of one located pair.
fn push_trade(t: &mut TradePairVertex, history: &HistoryData, p: TradePair, o: usize, c: usize, Ghost(loc): Ghost<Seq<Located>>)
    requires
        history.wf(),
        o < history@.len(),
        c < history@.len(),
        trade_geometry_of(*old(t), history@, loc),
    ensures
        trade_geometry_of(*final(t), history@, loc.push((p, o as int, c as int))),
{
    let ghost l: Located = (p, o as int, c as int);
    let ghost bars = history@;
    proof {
        lemma_concat_ix_push(loc, profit_fn(), l);
        lemma_concat_ix_push(loc, loss_fn(), l);
        lemma_concat_ix_push(loc, open_marker_fn(bars, Direction::Long), l);
        lemma_concat_ix_push(loc, close_marker_fn(bars, Direction::Long), l);
        lemma_concat_ix_push(loc, open_marker_fn(bars, Direction::Short), l);
        lemma_concat_ix_push(loc, close_marker_fn(bars, Direction::Short), l);
        lemma_concat_ix_push(loc, open_label_fn(bars, Direction::Long), l);
        lemma_concat_ix_push(loc, close_label_fn(bars, Direction::Long), l);
        lemma_concat_ix_push(loc, open_label_fn(bars, Direction::Short), l);
        lemma_concat_ix_push(loc, close_label_fn(bars, Direction::Short), l);
    }
    let ox: i64 = 10 * (o as i64);
    let cx: i64 = 10 * (c as i64);
    let ghost t0 = *t;
    let profit = (p.direction == Direction::Long && p.close_price >= p.open_price)
        || (p.direction == Direction::Short && p.close_price <= p.open_price);
    if profit {
        t.profit.push(vertex(ox, p.open_price));
        t.profit.push(vertex(cx, p.close_price));
    } else {
        t.loss.push(vertex(ox, p.open_price));
        t.loss.push(vertex(cx, p.close_price));
    }
    assert(t.profit@ =~= t0.profit@ + profit_piece(l));
    assert(t.loss@ =~= t0.loss@ + loss_piece(l));
    let ob = history.bar(o);
    let cb = history.bar(c);
    if p.direction == Direction::Long {
        let a = vertex(ox, ob.low);
        let z = vertex(cx, cb.high);
        t.buy.push(a);
        t.buy.push(a);
        t.buy.push(a);
        t.sell.push(z);
        t.sell.push(z);
        t.sell.push(z);
        t.buy_text.push((a, p.volume));
        t.sell_text.push((z, p.volume));
    } else {
        let a = vertex(ox, ob.high);
        let z = vertex(cx, cb.low);
        t.short.push(a);
        t.short.push(a);
        t.short.push(a);
        t.cover.push(z);
        t.cover.push(z);
        t.cover.push(z);
        t.short_text.push((a, p.volume));
        t.cover_text.push((z, p.volume));
    }
    assert(t.buy@ =~= t0.buy@ + open_marker(bars, l, Direction::Long));
    assert(t.sell@ =~= t0.sell@ + close_marker(bars, l, Direction::Long));
    assert(t.short@ =~= t0.short@ + open_marker(bars, l, Direction::Short));
    assert(t.cover@ =~= t0.cover@ + close_marker(bars, l, Direction::Short));
    assert(t.buy_text@ =~= t0.buy_text@ + open_label(bars, l, Direction::Long));
    assert(t.sell_text@ =~= t0.sell_text@ + close_label(bars, l, Direction::Long));
    assert(t.short_text@ =~= t0.short_text@ + open_label(bars, l, Direction::Short));
    assert(t.cover_text@ =~= t0.cover_text@ + close_label(bars, l, Direction::Short));
}

/// Connectors, markers and labels of the trade pairs, with each pair's open
/// and close bars found by a forward-only scan from the previous pair's open
/// bar; fails with `DatetimeNotFound` when some datetime has no bar there.
pub fn trade_pairs_vertex(history: &HistoryData, pairs: &Vec<TradePair>) -> (r: Result<TradePairVertex, GeometryError>)
    requires
        history.wf(),
    ensures
        r is Err <==> locate_pairs(history@, pairs@) is None,
        r matches Err(e) ==> e == GeometryError::DatetimeNotFound,
        r matches Ok(t) ==> trade_geometry_of(t, history@, locate_pairs(history@, pairs@).unwrap()),
{
    let mut t = empty_trade_geometry();
    let ghost mut loc: Seq<Located> = seq![];
    let mut start: usize = 0;
    let n = pairs.len();
    for k in 0..n
        invariant
            n == pairs@.len(),
            history.wf(),
            locate_pairs(history@, pairs@.take(k as int)) == Some(loc),
            start == scan_start(loc),
            trade_geometry_of(t, history@, loc),
    {
        let p = pairs[k];
        proof {
            assert(pairs@.take(k + 1).drop_last() =~= pairs@.take(k as int));
        }
        let open = search_ix_by_dt(history, p.open_dt, start);
        let close = search_ix_by_dt(history, p.close_dt, start);
        match (open, close) {
            (Some(o), Some(c)) => {
                push_trade(&mut t, history, p, o, c, Ghost(loc));
                proof {
                    loc = loc.push((p, o as int, c as int));
                }
                start = o;
            },
            _ => {
                proof {
                    lemma_locate_none(history@, pairs@, k + 1);
                }
                return Err(GeometryError::DatetimeNotFound);
            },
        }
    }
    assert(pairs@.take(n as int) =~= pairs@);
    Ok(t)
}

} // verus!
