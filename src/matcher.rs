//! FIFO trade matching: pairs each execution against the oldest open
//! executions of the opposite direction.
use vstd::prelude::*;

verus! {

#[derive(Clone, Copy, Debug, PartialEq, Eq, Structural)]
pub enum Direction {
    Long,
    Short,
}

/// One raw execution; price in ticks, volume in traded units.
#[derive(Clone, Copy, Debug, PartialEq, Eq, Structural)]
pub struct TradeData {
    /// Local wall-clock time in seconds.
    pub datetime: i64,
    pub direction: Direction,
    pub price: i64,
    pub volume: u64,
}

/// A closed trade: the open side's time, price and direction, the closing
/// execution's time and price, and the matched volume.
#[derive(Clone, Copy, Debug, PartialEq, Eq, Structural)]
pub struct TradePair {
    pub open_dt: i64,
    pub open_price: i64,
    pub close_dt: i64,
    pub close_price: i64,
    pub direction: Direction,
    pub volume: u64,
}

/// An execution still (partly) open: its position in the execution log and
/// its remaining volume.
#[derive(Clone, Copy, Debug, PartialEq, Eq, Structural)]
pub struct OpenLot {
    pub origin: usize,
    pub trade: TradeData,
}

/// A pair as the model emits it, together with the log position of its open side.
pub type Match = (TradePair, int);

/// Open lots of one direction, oldest first.
pub type Inventory = Seq<OpenLot>;

/// Long inventory, short inventory, and the pairs emitted so far.
pub type MatchState = (Inventory, Inventory, Seq<Match>);

pub open spec fn make_pair(open: TradeData, close: TradeData, volume: u64) -> TradePair {
    TradePair {
        open_dt: open.datetime,
        open_price: open.price,
        close_dt: close.datetime,
        close_price: close.price,
        direction: open.direction,
        volume,
    }
}

pub open spec fn with_volume(t: TradeData, volume: u64) -> TradeData {
    TradeData { volume, ..t }
}

/// Matches `rem` units of the closing execution `close` against the opposite
/// inventory `opp`, head first: the pairs emitted, the inventory left, and the
/// volume of `close` left unmatched.
pub open spec fn match_against(close: TradeData, rem: u64, opp: Inventory) -> (Seq<Match>, Inventory, u64)
    decreases opp.len(),
{
    if rem == 0 || opp.len() == 0 {
        (seq![], opp, rem)
    } else {
        let o = opp[0];
        if o.trade.volume <= rem {
            let rest = match_against(close, (rem - o.trade.volume) as u64, opp.drop_first());
            (seq![(make_pair(o.trade, close, o.trade.volume), o.origin as int)] + rest.0, rest.1, rest.2)
        } else {
            (
                seq![(make_pair(o.trade, close, rem), o.origin as int)],
                opp.update(0, OpenLot { origin: o.origin, trade: with_volume(o.trade, (o.trade.volume - rem) as u64) }),
                0,
            )
        }
    }
}

/// Processes execution `e`, found at log position `ix`.
pub open spec fn match_step(s: MatchState, e: TradeData, ix: int) -> MatchState {
    let lot = |r: u64| OpenLot { origin: ix as usize, trade: with_volume(e, r) };
    if e.direction == Direction::Long {
        let m = match_against(e, e.volume, s.1);
        (if m.2 > 0 { s.0.push(lot(m.2)) } else { s.0 }, m.1, s.2 + m.0)
    } else {
        let m = match_against(e, e.volume, s.0);
        (m.1, if m.2 > 0 { s.1.push(lot(m.2)) } else { s.1 }, s.2 + m.0)
    }
}

/// The state after processing the whole execution log in arrival order.
pub open spec fn match_all(log: Seq<TradeData>) -> MatchState
    decreases log.len(),
{
    if log.len() == 0 {
        (seq![], seq![], seq![])
    } else {
        match_step(match_all(log.drop_last()), log.last(), log.len() - 1)
    }
}

pub open spec fn pairs_of(ms: Seq<Match>) -> Seq<TradePair> {
    ms.map_values(|m: Match| m.0)
}

/// A FIFO queue of open lots: `lots[head..]`, oldest first.
struct LotQueue {
    lots: Vec<OpenLot>,
    head: usize,
}

impl View for LotQueue {
    type V = Inventory;

    closed spec fn view(&self) -> Inventory {
        self.lots@.subrange(self.head as int, self.lots@.len() as int)
    }
}

impl LotQueue {
    closed spec fn wf(&self) -> bool {
        self.head <= self.lots@.len()
    }

    fn new() -> (r: LotQueue)
        ensures
            r.wf(),
            r@ == Seq::<OpenLot>::empty(),
    {
        let r = LotQueue { lots: Vec::new(), head: 0 };
        assert(r@ =~= Seq::<OpenLot>::empty());
        r
    }

    fn is_empty(&self) -> (r: bool)
        requires
            self.wf(),
        ensures
            r == (self@.len() == 0),
    {
        self.head == self.lots.len()
    }

    fn front(&self) -> (r: OpenLot)
        requires
            self.wf(),
            self@.len() > 0,
        ensures
            r == self@[0],
    {
        self.lots[self.head]
    }

    fn pop_front(&mut self)
        requires
            old(self).wf(),
            old(self)@.len() > 0,
        ensures
            final(self).wf(),
            final(self)@ == old(self)@.drop_first(),
    {
        assert(self@.len() == self.lots@.len() - self.head);
        assert(self.head < self.lots.len());
        self.head = self.head + 1;
        assert(self@ =~= old(self)@.drop_first());
    }

    fn set_front(&mut self, lot: OpenLot)
        requires
            old(self).wf(),
            old(self)@.len() > 0,
        ensures
            final(self).wf(),
            final(self)@ == old(self)@.update(0, lot),
    {
        let h = self.head;
        self.lots.set(h, lot);
        assert(self@ =~= old(self)@.update(0, lot));
    }

    fn push(&mut self, lot: OpenLot)
        requires
            old(self).wf(),
        ensures
            final(self).wf(),
            final(self)@ == old(self)@.push(lot),
    {
        self.lots.push(lot);
        assert(self@ =~= old(self)@.push(lot));
    }
}

proof fn lemma_pairs_of_append(a: Seq<Match>, b: Seq<Match>)
    ensures
        pairs_of(a + b) == pairs_of(a) + pairs_of(b),
{
    assert(pairs_of(a + b) =~= pairs_of(a) + pairs_of(b));
}

/// Matches `close` against `opp`, appending the pairs to `out`; returns the
/// volume of `close` left unmatched.
fn match_execution(close: TradeData, opp: &mut LotQueue, out: &mut Vec<TradePair>) -> (r: u64)
    requires
        old(opp).wf(),
    ensures
        final(opp).wf(),
        ({
            let m = match_against(close, close.volume, old(opp)@);
            &&& final(out)@ == old(out)@ + pairs_of(m.0)
            &&& final(opp)@ == m.1
            &&& r == m.2
        }),
{
    let ghost full = match_against(close, close.volume, opp@);
    let ghost emitted: Seq<Match> = seq![];
    let ghost out0 = out@;
    let mut rem = close.volume;
    while rem > 0 && !opp.is_empty()
        invariant
            opp.wf(),
            ({
                let cur = match_against(close, rem, opp@);
                &&& full.0 == emitted + cur.0
                &&& full.1 == cur.1
                &&& full.2 == cur.2
            }),
            out@ == out0 + pairs_of(emitted),
        decreases opp@.len(), rem,
    {
        let o = opp.front();
        let ghost q = opp@;
        proof {
            lemma_pairs_of_append(emitted, seq![(make_pair(o.trade, close, if o.trade.volume <= rem { o.trade.volume } else { rem }), o.origin as int)]);
        }
        if o.trade.volume <= rem {
            out.push(TradePair {
                open_dt: o.trade.datetime,
                open_price: o.trade.price,
                close_dt: close.datetime,
                close_price: close.price,
                direction: o.trade.direction,
                volume: o.trade.volume,
            });
            proof {
                emitted = emitted + seq![(make_pair(o.trade, close, o.trade.volume), o.origin as int)];
                assert(emitted.drop_last() =~= emitted.subrange(0, emitted.len() - 1));
            }
            rem = rem - o.trade.volume;
            opp.pop_front();
            proof {
                let cur0 = match_against(close, (rem + o.trade.volume) as u64, q);
                assert(cur0.0 =~= seq![(make_pair(o.trade, close, o.trade.volume), o.origin as int)] + match_against(close, rem, opp@).0);
                assert(full.0 =~= emitted + match_against(close, rem, opp@).0);
            }
        } else {
            out.push(TradePair {
                open_dt: o.trade.datetime,
                open_price: o.trade.price,
                close_dt: close.datetime,
                close_price: close.price,
                direction: o.trade.direction,
                volume: rem,
            });
            proof {
                emitted = emitted + seq![(make_pair(o.trade, close, rem), o.origin as int)];
            }
            let left = OpenLot { origin: o.origin, trade: TradeData { volume: o.trade.volume - rem, ..o.trade } };
            opp.set_front(left);
            rem = 0;
            proof {
                assert(full.0 =~= emitted + match_against(close, rem, opp@).0);
            }
        }
    }
    proof {
        assert(full.0 =~= emitted);
    }
    rem
}

/// Pairs the execution log into closed trades by FIFO matching, each
/// direction against the other. Lots still open at the end yield no pair.
pub fn generate_trade_pairs(trades: &Vec<TradeData>) -> (r: Vec<TradePair>)
    ensures
        r@ == pairs_of(match_all(trades@).2),
        forall|i: int| 0 <= i < r@.len() ==> (#[trigger] r@[i]).volume > 0,
{
    let mut long = LotQueue::new();
    let mut short = LotQueue::new();
    let mut pairs: Vec<TradePair> = Vec::new();
    let n = trades.len();
    for i in 0..n
        invariant
            n == trades@.len(),
            long.wf(),
            short.wf(),
            ({
                let s = match_all(trades@.take(i as int));
                &&& long@ == s.0
                &&& short@ == s.1
                &&& pairs@ == pairs_of(s.2)
            }),
    {
        let e = trades[i];
        let ghost s = match_all(trades@.take(i as int));
        proof {
            assert(trades@.take(i + 1).drop_last() =~= trades@.take(i as int));
        }
        if e.direction == Direction::Long {
            let ghost m = match_against(e, e.volume, short@);
            let r = match_execution(e, &mut short, &mut pairs);
            if r > 0 {
                long.push(OpenLot { origin: i, trade: TradeData { volume: r, ..e } });
            }
            proof {
                lemma_pairs_of_append(s.2, m.0);
            }
        } else {
            let ghost m = match_against(e, e.volume, long@);
            let r = match_execution(e, &mut long, &mut pairs);
            if r > 0 {
                short.push(OpenLot { origin: i, trade: TradeData { volume: r, ..e } });
            }
            proof {
                lemma_pairs_of_append(s.2, m.0);
            }
        }
    }
    proof {
        assert(trades@.take(n as int) =~= trades@);
        lemma_pairs_positive(trades@);
        assert forall|i: int| 0 <= i < pairs@.len() implies (#[trigger] pairs@[i]).volume > 0 by {
            assert(pairs@[i] == match_all(trades@).2[i].0);
        }
    }
    pairs
}

/// Total volume of the executions of direction `d` in `log`.
pub open spec fn log_volume(log: Seq<TradeData>, d: Direction) -> int
    decreases log.len(),
{
    if log.len() == 0 {
        0
    } else {
        log_volume(log.drop_last(), d) + if log.last().direction == d { log.last().volume as int } else { 0 }
    }
}

/// Total remaining volume of the lots in an inventory.
pub open spec fn inventory_volume(q: Inventory) -> int
    decreases q.len(),
{
    if q.len() == 0 {
        0
    } else {
        q[0].trade.volume + inventory_volume(q.drop_first())
    }
}

/// Total matched volume of the emitted pairs.
pub open spec fn matched_volume(ms: Seq<Match>) -> int
    decreases ms.len(),
{
    if ms.len() == 0 {
        0
    } else {
        ms[0].0.volume + matched_volume(ms.drop_first())
    }
}

proof fn lemma_matched_volume_append(a: Seq<Match>, b: Seq<Match>)
    ensures
        matched_volume(a + b) == matched_volume(a) + matched_volume(b),
    decreases a.len(),
{
    if a.len() > 0 {
        assert((a + b).drop_first() =~= a.drop_first() + b);
        lemma_matched_volume_append(a.drop_first(), b);
    } else {
        assert(a + b =~= b);
    }
}

proof fn lemma_inventory_volume_push(q: Inventory, x: OpenLot)
    ensures
        inventory_volume(q.push(x)) == inventory_volume(q) + x.trade.volume,
    decreases q.len(),
{
    if q.len() > 0 {
        assert(q.push(x).drop_first() =~= q.drop_first().push(x));
        lemma_inventory_volume_push(q.drop_first(), x);
    } else {
        assert(q.push(x).drop_first() =~= q);
    }
}

proof fn lemma_match_against_volume(close: TradeData, rem: u64, opp: Inventory)
    ensures
        ({
            let m = match_against(close, rem, opp);
            &&& matched_volume(m.0) + m.2 == rem
            &&& inventory_volume(opp) == inventory_volume(m.1) + matched_volume(m.0)
        }),
    decreases opp.len(),
{
    if rem == 0 || opp.len() == 0 {
    } else {
        let o = opp[0];
        let pair = (make_pair(o.trade, close, if o.trade.volume <= rem { o.trade.volume } else { rem }), o.origin as int);
        if o.trade.volume <= rem {
            let rest = match_against(close, (rem - o.trade.volume) as u64, opp.drop_first());
            lemma_match_against_volume(close, (rem - o.trade.volume) as u64, opp.drop_first());
            assert((seq![pair] + rest.0).drop_first() =~= rest.0);
            assert(matched_volume(seq![pair] + rest.0) == o.trade.volume + matched_volume(rest.0));
            assert(inventory_volume(opp) == o.trade.volume + inventory_volume(opp.drop_first()));
        } else {
            let q = opp.update(0, OpenLot { origin: o.origin, trade: with_volume(o.trade, (o.trade.volume - rem) as u64) });
            assert(q.drop_first() =~= opp.drop_first());
            assert(seq![pair].drop_first() =~= Seq::<Match>::empty());
            assert(matched_volume(Seq::<Match>::empty()) == 0);
            assert(matched_volume(seq![pair]) == rem);
            assert(inventory_volume(q) == o.trade.volume - rem + inventory_volume(opp.drop_first()));
        }
    }
}

/// Volume is conserved by matching: for each direction, the executions'
/// total volume equals the volume matched into pairs plus the volume still
/// open in that direction's inventory.
pub proof fn lemma_volume_conserved(log: Seq<TradeData>)
    requires
        log.len() <= usize::MAX,
    ensures
        log_volume(log, Direction::Long) == matched_volume(match_all(log).2) + inventory_volume(match_all(log).0),
        log_volume(log, Direction::Short) == matched_volume(match_all(log).2) + inventory_volume(match_all(log).1),
    decreases log.len(),
{
    if log.len() > 0 {
        let prev = log.drop_last();
        let s = match_all(prev);
        let e = log.last();
        lemma_volume_conserved(prev);
        let lot = |r: u64| OpenLot { origin: (log.len() - 1) as usize, trade: with_volume(e, r) };
        if e.direction == Direction::Long {
            let m = match_against(e, e.volume, s.1);
            lemma_match_against_volume(e, e.volume, s.1);
            lemma_matched_volume_append(s.2, m.0);
            lemma_inventory_volume_push(s.0, lot(m.2));
        } else {
            let m = match_against(e, e.volume, s.0);
            lemma_match_against_volume(e, e.volume, s.0);
            lemma_matched_volume_append(s.2, m.0);
            lemma_inventory_volume_push(s.1, lot(m.2));
        }
    }
}

/// `x` is a lot of direction `d` that stems from the execution at `x.origin`.
pub open spec fn lot_from_log(log: Seq<TradeData>, x: OpenLot, d: Direction) -> bool {
    &&& x.origin < log.len()
    &&& x.trade.direction == d
    &&& log[x.origin as int].direction == d
    &&& log[x.origin as int].datetime == x.trade.datetime
    &&& log[x.origin as int].price == x.trade.price
}

/// The open side of `m` is the execution at log position `m.1`.
pub open spec fn pair_from_log(log: Seq<TradeData>, m: Match) -> bool {
    &&& 0 <= m.1 < log.len()
    &&& log[m.1].direction == m.0.direction
    &&& log[m.1].datetime == m.0.open_dt
    &&& log[m.1].price == m.0.open_price
}

/// Of two emitted pairs with the same open direction, the earlier one was
/// opened by an execution that arrived no later.
pub open spec fn fifo_ordered(ms: Seq<Match>) -> bool {
    forall|i: int, j: int|
        0 <= i < j < ms.len() && #[trigger] ms[i].0.direction == #[trigger] ms[j].0.direction ==> ms[i].1 <= ms[j].1
}

pub open spec fn origins_increasing(q: Inventory) -> bool {
    forall|i: int, j: int| 0 <= i < j < q.len() ==> #[trigger] q[i].origin < #[trigger] q[j].origin
}

pub open spec fn inventory_from_log(log: Seq<TradeData>, q: Inventory, d: Direction) -> bool {
    &&& forall|k: int| 0 <= k < q.len() ==> lot_from_log(log, #[trigger] q[k], d)
    &&& origins_increasing(q)
}

/// Every pair of direction `d` was opened no later than each lot still open in `q`.
pub open spec fn pairs_precede(ms: Seq<Match>, q: Inventory, d: Direction) -> bool {
    forall|i: int, k: int|
        0 <= i < ms.len() && 0 <= k < q.len() && #[trigger] ms[i].0.direction == d ==> ms[i].1 <= #[trigger] q[k].origin
}

spec fn fifo_inv(log: Seq<TradeData>, s: MatchState) -> bool {
    &&& inventory_from_log(log, s.0, Direction::Long)
    &&& inventory_from_log(log, s.1, Direction::Short)
    &&& forall|i: int| 0 <= i < s.2.len() ==> pair_from_log(log, #[trigger] s.2[i])
    &&& fifo_ordered(s.2)
    &&& pairs_precede(s.2, s.0, Direction::Long)
    &&& pairs_precede(s.2, s.1, Direction::Short)
}

proof fn lemma_match_against_fifo(log: Seq<TradeData>, close: TradeData, rem: u64, opp: Inventory, d: Direction)
    requires
        inventory_from_log(log, opp, d),
    ensures
        ({
            let m = match_against(close, rem, opp);
            &&& forall|i: int| 0 <= i < m.0.len() ==> pair_from_log(log, #[trigger] m.0[i])
            &&& forall|i: int| 0 <= i < m.0.len() ==> (#[trigger] m.0[i]).0.direction == d
            &&& forall|i: int| 0 <= i < m.0.len() ==> opp.len() > 0 && opp[0].origin <= (#[trigger] m.0[i]).1
            &&& forall|i: int, j: int| 0 <= i < j < m.0.len() ==> #[trigger] m.0[i].1 <= #[trigger] m.0[j].1
            &&& inventory_from_log(log, m.1, d)
            &&& forall|k: int| 0 <= k < m.1.len() ==> opp.len() > 0 && opp[0].origin <= (#[trigger] m.1[k]).origin
            &&& pairs_precede(m.0, m.1, d)
        }),
    decreases opp.len(),
{
    if rem == 0 || opp.len() == 0 {
    } else {
        let o = opp[0];
        if o.trade.volume <= rem {
            let tail = opp.drop_first();
            let rest = match_against(close, (rem - o.trade.volume) as u64, tail);
            assert(inventory_from_log(log, tail, d)) by {
                assert forall|i: int, j: int| 0 <= i < j < tail.len() implies #[trigger] tail[i].origin < #[trigger] tail[j].origin by {
                    assert(opp[i + 1].origin < opp[j + 1].origin);
                }
                assert forall|k: int| 0 <= k < tail.len() implies lot_from_log(log, #[trigger] tail[k], d) by {
                    assert(lot_from_log(log, opp[k + 1], d));
                }
            }
            lemma_match_against_fifo(log, close, (rem - o.trade.volume) as u64, tail, d);
            let pair = (make_pair(o.trade, close, o.trade.volume), o.origin as int);
            let ms = seq![pair] + rest.0;
            assert(lot_from_log(log, opp[0], d));
            assert forall|i: int| 0 <= i < ms.len() implies (#[trigger] ms[i]).1 >= o.origin && pair_from_log(log, ms[i]) && ms[i].0.direction == d by {
                if i > 0 {
                    assert(ms[i] == rest.0[i - 1]);
                    assert(opp[0].origin < opp[1].origin);
                }
            }
            assert forall|i: int, j: int| 0 <= i < j < ms.len() implies #[trigger] ms[i].1 <= #[trigger] ms[j].1 by {
                if i > 0 {
                    assert(ms[i] == rest.0[i - 1]);
                    assert(ms[j] == rest.0[j - 1]);
                } else {
                    assert(ms[j] == rest.0[j - 1]);
                }
            }
            assert forall|k: int| 0 <= k < rest.1.len() implies opp[0].origin <= (#[trigger] rest.1[k]).origin by {
                assert(opp[0].origin < opp[1].origin);
            }
            assert forall|i: int, k: int|
                0 <= i < ms.len() && 0 <= k < rest.1.len() && #[trigger] ms[i].0.direction == d implies ms[i].1 <= #[trigger] rest.1[k].origin by {
                if i > 0 {
                    assert(ms[i] == rest.0[i - 1]);
                } else {
                    assert(opp[0].origin < opp[1].origin);
                }
            }
        } else {
            let lot = OpenLot { origin: o.origin, trade: with_volume(o.trade, (o.trade.volume - rem) as u64) };
            let q = opp.update(0, lot);
            assert(lot_from_log(log, opp[0], d));
            assert forall|k: int| 0 <= k < q.len() implies lot_from_log(log, #[trigger] q[k], d) by {
                assert(lot_from_log(log, opp[k], d));
            }
            assert forall|i: int, j: int| 0 <= i < j < q.len() implies #[trigger] q[i].origin < #[trigger] q[j].origin by {
                assert(opp[i].origin < opp[j].origin);
            }
            assert forall|k: int| 0 <= k < q.len() implies opp[0].origin <= (#[trigger] q[k]).origin by {
                if k > 0 {
                    assert(opp[0].origin < opp[k].origin);
                }
            }
        }
    }
}

proof fn lemma_inventory_extend(log: Seq<TradeData>, e: TradeData, q: Inventory, d: Direction)
    requires
        inventory_from_log(log, q, d),
    ensures
        inventory_from_log(log.push(e), q, d),
{
    assert forall|k: int| 0 <= k < q.len() implies lot_from_log(log.push(e), #[trigger] q[k], d) by {
        assert(lot_from_log(log, q[k], d));
    }
}

proof fn lemma_fifo_step(log: Seq<TradeData>)
    requires
        log.len() > 0,
        log.len() <= usize::MAX,
        fifo_inv(log.drop_last(), match_all(log.drop_last())),
    ensures
        fifo_inv(log, match_all(log)),
{
    let prev = log.drop_last();
    let s = match_all(prev);
    let e = log.last();
    let ix = log.len() - 1;
    assert(prev.push(e) =~= log);
    lemma_inventory_extend(prev, e, s.0, Direction::Long);
    lemma_inventory_extend(prev, e, s.1, Direction::Short);
    assert forall|i: int| 0 <= i < s.2.len() implies pair_from_log(log, #[trigger] s.2[i]) by {
        assert(pair_from_log(prev, s.2[i]));
    }
    let lot = |r: u64| OpenLot { origin: ix as usize, trade: with_volume(e, r) };
    let (same, opp, od) = if e.direction == Direction::Long {
        (s.0, s.1, Direction::Short)
    } else {
        (s.1, s.0, Direction::Long)
    };
    let d = e.direction;
    assert(d != od);
    let m = match_against(e, e.volume, opp);
    lemma_match_against_fifo(log, e, e.volume, opp, od);
    let same2 = if m.2 > 0 { same.push(lot(m.2)) } else { same };
    let ps = s.2 + m.0;
    assert(inventory_from_log(log, same2, d)) by {
        if m.2 > 0 {
            assert forall|k: int| 0 <= k < same2.len() implies lot_from_log(log, #[trigger] same2[k], d) by {
                if k < same.len() {
                    assert(lot_from_log(log, same[k], d));
                }
            }
            assert forall|i: int, j: int| 0 <= i < j < same2.len() implies #[trigger] same2[i].origin < #[trigger] same2[j].origin by {
                if j < same.len() {
                    assert(same[i].origin < same[j].origin);
                } else {
                    assert(lot_from_log(prev, same[i], d));
                }
            }
        }
    }
    assert forall|i: int| 0 <= i < ps.len() implies pair_from_log(log, #[trigger] ps[i]) by {
        if i < s.2.len() {
            assert(ps[i] == s.2[i]);
        } else {
            assert(ps[i] == m.0[i - s.2.len()]);
        }
    }
    assert forall|i: int, j: int| 0 <= i < j < ps.len() && #[trigger] ps[i].0.direction == #[trigger] ps[j].0.direction implies ps[i].1 <= ps[j].1 by {
        if j < s.2.len() {
            assert(ps[i] == s.2[i] && ps[j] == s.2[j]);
        } else if i < s.2.len() {
            assert(ps[i] == s.2[i]);
            let jj = j - s.2.len();
            assert(ps[j] == m.0[jj]);
            assert(m.0[jj].0.direction == od);
            assert(opp[0].origin <= m.0[jj].1);
            if od == Direction::Long {
                assert(s.2[i].1 <= s.0[0].origin);
            } else {
                assert(s.2[i].1 <= s.1[0].origin);
            }
        } else {
            assert(ps[i] == m.0[i - s.2.len()] && ps[j] == m.0[j - s.2.len()]);
        }
    }
    assert(pairs_precede(ps, same2, d)) by {
        assert forall|i: int, k: int|
            0 <= i < ps.len() && 0 <= k < same2.len() && #[trigger] ps[i].0.direction == d implies ps[i].1 <= #[trigger] same2[k].origin by {
            if i < s.2.len() {
                assert(ps[i] == s.2[i]);
                if k < same.len() {
                    assert(same2[k] == same[k]);
                    if d == Direction::Long {
                        assert(s.2[i].1 <= s.0[k].origin);
                    } else {
                        assert(s.2[i].1 <= s.1[k].origin);
                    }
                } else {
                    assert(pair_from_log(prev, s.2[i]));
                }
            } else {
                assert(ps[i] == m.0[i - s.2.len()]);
                assert(m.0[i - s.2.len()].0.direction == od);
            }
        }
    }
    assert(pairs_precede(ps, m.1, od)) by {
        assert forall|i: int, k: int|
            0 <= i < ps.len() && 0 <= k < m.1.len() && #[trigger] ps[i].0.direction == od implies ps[i].1 <= #[trigger] m.1[k].origin by {
            if i < s.2.len() {
                assert(ps[i] == s.2[i]);
                assert(opp[0].origin <= m.1[k].origin);
                if od == Direction::Long {
                    assert(s.2[i].1 <= s.0[0].origin);
                } else {
                    assert(s.2[i].1 <= s.1[0].origin);
                }
            } else {
                assert(ps[i] == m.0[i - s.2.len()]);
            }
        }
    }
}

/// Matching is first-in first-out: each pair's open side is the execution at
/// the log position the model records for it, and of any two pairs with the
/// same open direction, the one emitted first was opened by the execution
/// that arrived first (or by the same one).
pub proof fn lemma_fifo_matching(log: Seq<TradeData>)
    requires
        log.len() <= usize::MAX,
    ensures
        fifo_ordered(match_all(log).2),
        forall|i: int| 0 <= i < match_all(log).2.len() ==> pair_from_log(log, #[trigger] match_all(log).2[i]),
{
    lemma_fifo_inv(log);
}

proof fn lemma_fifo_inv(log: Seq<TradeData>)
    requires
        log.len() <= usize::MAX,
    ensures
        fifo_inv(log, match_all(log)),
    decreases log.len(),
{
    if log.len() > 0 {
        lemma_fifo_inv(log.drop_last());
        lemma_fifo_step(log);
    }
}

pub open spec fn lots_positive(q: Inventory) -> bool {
    forall|k: int| 0 <= k < q.len() ==> (#[trigger] q[k]).trade.volume > 0
}

proof fn lemma_match_against_positive(close: TradeData, rem: u64, opp: Inventory)
    requires
        lots_positive(opp),
    ensures
        ({
            let m = match_against(close, rem, opp);
            &&& forall|i: int| 0 <= i < m.0.len() ==> (#[trigger] m.0[i]).0.volume > 0
            &&& lots_positive(m.1)
        }),
    decreases opp.len(),
{
    if rem == 0 || opp.len() == 0 {
    } else {
        let o = opp[0];
        if o.trade.volume <= rem {
            let tail = opp.drop_first();
            assert(lots_positive(tail)) by {
                assert forall|k: int| 0 <= k < tail.len() implies (#[trigger] tail[k]).trade.volume > 0 by {
                    assert(tail[k] == opp[k + 1]);
                }
            }
            lemma_match_against_positive(close, (rem - o.trade.volume) as u64, tail);
            let rest = match_against(close, (rem - o.trade.volume) as u64, tail);
            let ms = seq![(make_pair(o.trade, close, o.trade.volume), o.origin as int)] + rest.0;
            assert forall|i: int| 0 <= i < ms.len() implies (#[trigger] ms[i]).0.volume > 0 by {
                if i > 0 {
                    assert(ms[i] == rest.0[i - 1]);
                }
            }
        } else {
            let q = opp.update(0, OpenLot { origin: o.origin, trade: with_volume(o.trade, (o.trade.volume - rem) as u64) });
            assert forall|k: int| 0 <= k < q.len() implies (#[trigger] q[k]).trade.volume > 0 by {
                if k > 0 {
                    assert(q[k] == opp[k]);
                }
            }
        }
    }
}

/// Every emitted pair matches a positive volume, and every open lot holds one.
pub proof fn lemma_pairs_positive(log: Seq<TradeData>)
    ensures
        lots_positive(match_all(log).0),
        lots_positive(match_all(log).1),
        forall|i: int| 0 <= i < match_all(log).2.len() ==> (#[trigger] match_all(log).2[i]).0.volume > 0,
    decreases log.len(),
{
    if log.len() > 0 {
        let prev = log.drop_last();
        let s = match_all(prev);
        let e = log.last();
        lemma_pairs_positive(prev);
        let opp = if e.direction == Direction::Long { s.1 } else { s.0 };
        lemma_match_against_positive(e, e.volume, opp);
        let m = match_against(e, e.volume, opp);
        let ps = s.2 + m.0;
        assert forall|i: int| 0 <= i < ps.len() implies (#[trigger] ps[i]).0.volume > 0 by {
            if i < s.2.len() {
                assert(ps[i] == s.2[i]);
            } else {
                assert(ps[i] == m.0[i - s.2.len()]);
            }
        }
        let same = if e.direction == Direction::Long { s.0 } else { s.1 };
        let lot = OpenLot { origin: (log.len() - 1) as usize, trade: with_volume(e, m.2) };
        if m.2 > 0 {
            assert forall|k: int| 0 <= k < same.push(lot).len() implies (#[trigger] same.push(lot)[k]).trade.volume > 0 by {
                if k < same.len() {
                    assert(same.push(lot)[k] == same[k]);
                }
            }
        }
    }
}

/// `p` is closed by the execution `e`: it carries `e`'s datetime and price
/// as its close, and its open side has the other direction.
pub open spec fn closed_by(p: TradePair, e: TradeData) -> bool {
    &&& p.close_dt == e.datetime
    &&& p.close_price == e.price
    &&& p.direction != e.direction
}

proof fn lemma_match_against_closer(close: TradeData, rem: u64, opp: Inventory)
    ensures
        ({
            let m = match_against(close, rem, opp);
            forall|i: int| 0 <= i < m.0.len() ==>
                (#[trigger] m.0[i]).0.close_dt == close.datetime && m.0[i].0.close_price == close.price
        }),
    decreases opp.len(),
{
    if rem == 0 || opp.len() == 0 {
    } else {
        let o = opp[0];
        if o.trade.volume <= rem {
            let rest = match_against(close, (rem - o.trade.volume) as u64, opp.drop_first());
            lemma_match_against_closer(close, (rem - o.trade.volume) as u64, opp.drop_first());
            let ms = seq![(make_pair(o.trade, close, o.trade.volume), o.origin as int)] + rest.0;
            assert forall|i: int| 0 <= i < ms.len() implies
                (#[trigger] ms[i]).0.close_dt == close.datetime && ms[i].0.close_price == close.price by {
                if i > 0 {
                    assert(ms[i] == rest.0[i - 1]);
                }
            }
        }
    }
}

/// Pairs come out in the arrival order of the executions that close them:
/// processing one more execution keeps the pairs emitted so far as a prefix,
/// and every pair it adds is closed by that execution, which closes no more
/// than its own volume in total.
pub proof fn lemma_pairs_closed_in_order(log: Seq<TradeData>)
    requires
        0 < log.len() <= usize::MAX,
    ensures
        ({
            let before = match_all(log.drop_last()).2;
            let after = match_all(log).2;
            &&& before.len() <= after.len()
            &&& after.take(before.len() as int) == before
            &&& forall|i: int| before.len() <= i < after.len() ==> closed_by((#[trigger] after[i]).0, log.last())
            &&& matched_volume(after.skip(before.len() as int)) <= log.last().volume
        }),
{
    let prev = log.drop_last();
    let s = match_all(prev);
    let e = log.last();
    lemma_fifo_inv(prev);
    assert(prev.push(e) =~= log);
    lemma_inventory_extend(prev, e, s.0, Direction::Long);
    lemma_inventory_extend(prev, e, s.1, Direction::Short);
    let (opp, od) = if e.direction == Direction::Long { (s.1, Direction::Short) } else { (s.0, Direction::Long) };
    let m = match_against(e, e.volume, opp);
    lemma_match_against_fifo(log, e, e.volume, opp, od);
    lemma_match_against_closer(e, e.volume, opp);
    lemma_match_against_volume(e, e.volume, opp);
    let after = s.2 + m.0;
    assert(after.take(s.2.len() as int) =~= s.2);
    assert(after.skip(s.2.len() as int) =~= m.0);
    assert forall|i: int| s.2.len() <= i < after.len() implies closed_by((#[trigger] after[i]).0, e) by {
        assert(after[i] == m.0[i - s.2.len()]);
    }
}

} // verus!
