//! Quantity bookkeeping helpers.

use vstd::prelude::*;

use crate::models::{
    dec_abs, dec_checked_add, dec_checked_mul, dec_larger, dec_less, dec_max, dec_zero, decimal_add,
    decimal_mul, flat_position, pow10, BasicPosition, Dec,
};
use crate::text::{lower_equals, lower_text};

verus! {

/// Order quantity split into filled, pending and canceled parts.
#[derive(Debug, Clone, Copy, PartialEq, Eq, Structural)]
pub struct UQty {
    pub q: i64,
    pub f: i64,
    pub p: i64,
    pub c: i64,
}

impl UQty {
    pub fn new(q: i64, f: i64, p: i64, c: i64) -> (r: Self)
        ensures
            r == (UQty { q, f, p, c }),
    {
        UQty { q, f, p, c }
    }
}

pub open spec fn min_i64(a: i64, b: i64) -> i64 {
    if a <= b {
        a
    } else {
        b
    }
}

/// What `update_quantity` returns: cancel takes priority over fill, fill over pending.
pub open spec fn updated_quantity(q: i64, f: i64, p: i64, c: i64) -> UQty {
    if c > 0 {
        let c2 = min_i64(c, q);
        UQty { q, f: (q - c2) as i64, p: 0, c: c2 }
    } else if f > 0 {
        let f2 = min_i64(f, q);
        UQty { q, f: f2, p: (q - f2) as i64, c }
    } else if p > 0 {
        let p2 = min_i64(p, q);
        UQty { q, f: (q - p2) as i64, p: p2, c }
    } else {
        UQty { q, f, p: (q - p) as i64, c }
    }
}

/// A reported cancel settles the order: nothing stays pending, the canceled part
/// is the reported cancel capped at the order qty, and the rest counts as filled.
pub proof fn law_cancel_settles_quantity(q: i64, f: i64, p: i64, c: i64)
    requires
        c > 0,
        q >= 0,
    ensures
        updated_quantity(q, f, p, c).p == 0,
        updated_quantity(q, f, p, c).c == (if c <= q { c } else { q }),
        updated_quantity(q, f, p, c).f + updated_quantity(q, f, p, c).c == q,
        updated_quantity(q, f, p, c).q == q,
{
}

/// Without a cancel, a reported fill takes priority: the filled part is the fill
/// capped at the order qty and the rest is pending; with neither, a reported
/// pending qty capped at the order qty stays pending and the rest is filled.
pub proof fn law_fill_then_pending_split(q: i64, f: i64, p: i64, c: i64)
    requires
        c <= 0,
        q >= 0,
    ensures
        f > 0 ==> updated_quantity(q, f, p, c).f == (if f <= q { f } else { q }) && updated_quantity(q, f, p, c).f
            + updated_quantity(q, f, p, c).p == q,
        (f <= 0 && p > 0) ==> updated_quantity(q, f, p, c).p == (if p <= q { p } else { q })
            && updated_quantity(q, f, p, c).f + updated_quantity(q, f, p, c).p == q,
        updated_quantity(q, f, p, c).c == c,
{
}

/// Recompute the split of `q` from reported fill / pending / cancel quantities.
/// With non-negative inputs the parts add up to `q`.
pub fn update_quantity(q: i64, f: i64, p: i64, c: i64) -> (r: UQty)
    requires
        (c <= 0 && f <= 0 && p <= 0) ==> q - p <= i64::MAX,
    ensures
        r == updated_quantity(q, f, p, c),
        (q >= 0 && f >= 0 && p >= 0 && c >= 0) ==> r.f + r.p + r.c == q && r.q == q,
{
    let mut f = f;
    let mut p = p;
    let mut c = c;
    if c > 0 {
        c = if c <= q {
            c
        } else {
            q
        };
        f = q - c;
        p = q - c - f;
    } else if f > 0 {
        f = if f <= q {
            f
        } else {
            q
        };
        p = q - f;
    } else if p > 0 {
        p = if p <= q {
            p
        } else {
            q
        };
        f = q - p;
    } else {
        p = q - p;
    }
    UQty::new(q, f, p, c)
}

// ─── Positions from order records ────────────────────────────────────────────

/// One order row: symbol and side (either may be missing), quantity and prices.
#[derive(Debug, Clone)]
pub struct OrderRecord {
    pub symbol: Option<String>,
    pub side: Option<String>,
    pub quantity: Dec,
    pub price: Dec,
    pub trigger_price: Dec,
    pub average_price: Dec,
}

impl Default for OrderRecord {
    fn default() -> (r: Self)
        ensures
            r.symbol is None && r.side is None,
            r.quantity == dec_zero() && r.price == dec_zero(),
            r.trigger_price == dec_zero() && r.average_price == dec_zero(),
    {
        OrderRecord {
            symbol: None,
            side: None,
            quantity: Dec::zero(),
            price: Dec::zero(),
            trigger_price: Dec::zero(),
            average_price: Dec::zero(),
        }
    }
}

/// Index of the position of `sym` in `ps`, `ps.len()` when there is none.
pub open spec fn symbol_index(ps: Seq<BasicPosition>, sym: Seq<char>) -> int
    decreases ps.len(),
{
    if ps.len() == 0 {
        0
    } else if ps[0].symbol@ == sym {
        0
    } else {
        1 + symbol_index(ps.drop_first(), sym)
    }
}

/// Price of a row: the largest of its average, limit and trigger price.
pub open spec fn row_price(o: OrderRecord) -> Dec {
    dec_max(dec_max(o.average_price, o.price), o.trigger_price)
}

proof fn lemma_pow10_positive(n: nat)
    ensures
        pow10(n) > 0,
    decreases n,
{
    if n > 0 {
        lemma_pow10_positive((n - 1) as nat);
    }
}

/// "Not below" is transitive on decimals.
proof fn lemma_not_below_trans(x: Dec, y: Dec, z: Dec)
    requires
        !dec_less(x, y),
        !dec_less(y, z),
    ensures
        !dec_less(x, z),
{
    let px = pow10(x.spec_scale() as nat);
    let py = pow10(y.spec_scale() as nat);
    let pz = pow10(z.spec_scale() as nat);
    lemma_pow10_positive(x.spec_scale() as nat);
    lemma_pow10_positive(y.spec_scale() as nat);
    lemma_pow10_positive(z.spec_scale() as nat);
    let xm = x.spec_mantissa() as int;
    let ym = y.spec_mantissa() as int;
    let zm = z.spec_mantissa() as int;
    assert(xm * pz >= zm * px) by (nonlinear_arith)
        requires
            xm * py >= ym * px,
            ym * pz >= zm * py,
            px > 0,
            py > 0,
            pz > 0,
    {
        assert(xm * py * pz >= ym * px * pz);
        assert(ym * pz * px >= zm * py * px);
        assert(xm * pz * py >= zm * px * py);
    }
}

/// The larger of two decimals is below neither.
proof fn lemma_max_not_below(a: Dec, b: Dec)
    ensures
        !dec_less(dec_max(a, b), a),
        !dec_less(dec_max(a, b), b),
        dec_max(a, b) == a || dec_max(a, b) == b,
{
}

/// The price a row is booked at is its largest price: below none of its average,
/// limit and trigger price, and one of them.
pub proof fn law_row_price_is_largest(o: OrderRecord)
    ensures
        !dec_less(row_price(o), o.average_price),
        !dec_less(row_price(o), o.price),
        !dec_less(row_price(o), o.trigger_price),
        row_price(o) == o.average_price || row_price(o) == o.price || row_price(o) == o.trigger_price,
{
    let m = dec_max(o.average_price, o.price);
    lemma_max_not_below(o.average_price, o.price);
    lemma_max_not_below(m, o.trigger_price);
    lemma_not_below_trans(row_price(o), m, o.average_price);
    lemma_not_below_trans(row_price(o), m, o.price);
}

/// Row `o` moved the position of its symbol, at index `i`, from what `ps` held (or
/// a flat one) to what `ps2` holds, booking its absolute quantity at `price`.
pub open spec fn row_booked_at(
    ps: Seq<BasicPosition>,
    o: OrderRecord,
    ps2: Seq<BasicPosition>,
    price: Dec,
    i: int,
) -> bool {
    let sym = o.symbol->0;
    let p = if i < ps.len() {
        ps[i]
    } else {
        flat_position(sym)
    };
    let buy = lower_text(o.side->0@) == "buy"@;
    &&& 0 <= i <= ps.len()
    &&& i < ps2.len()
    &&& ps2[i].symbol@ == sym@
    &&& decimal_mul(price, dec_abs(o.quantity)) matches Some(v)
    &&& buy ==> decimal_add(p.buy_value, v) == Some(ps2[i].buy_value) && decimal_add(
        p.buy_quantity,
        dec_abs(o.quantity),
    ) == Some(ps2[i].buy_quantity)
    &&& !buy ==> decimal_add(p.sell_value, v) == Some(ps2[i].sell_value) && decimal_add(
        p.sell_quantity,
        dec_abs(o.quantity),
    ) == Some(ps2[i].sell_quantity)
}

/// A row with a symbol on the buy (sell) side adds its absolute quantity to that
/// symbol's bought (sold) quantity, and its quantity times a price below none of
/// its average, limit and trigger price to the bought (sold) value; the symbol's
/// position is the one already held or a flat one.
pub proof fn law_row_books_at_largest_price(ps: Seq<BasicPosition>, o: OrderRecord, ps2: Seq<BasicPosition>)
    requires
        o.symbol is Some,
        o.side matches Some(side) && (lower_text(side@) == "buy"@ || lower_text(side@) == "sell"@),
        with_row(ps, o) == Some(ps2),
    ensures
        exists|price: Dec, i: int|
            #[trigger] row_booked_at(ps, o, ps2, price, i) && !dec_less(price, o.average_price) && !dec_less(
                price,
                o.price,
            ) && !dec_less(price, o.trigger_price),
{
    reveal_strlit("buy");
    reveal_strlit("sell");
    assert("buy"@ != "sell"@) by {
        assert("buy"@.len() != "sell"@.len());
    }
    let sym = o.symbol->0;
    lemma_symbol_index(ps, sym@);
    law_row_price_is_largest(o);
    let i = symbol_index(ps, sym@);
    assert(row_booked_at(ps, o, ps2, row_price(o), i));
}

/// Book `qty` at `price` on the buy (`"buy"`) or sell (`"sell"`) side; other
/// sides leave the position as it is. `None` when an addition or product overflows.
pub open spec fn booked(p: BasicPosition, side: Seq<char>, price: Dec, qty: Dec) -> Option<BasicPosition> {
    if side == "buy"@ {
        match (decimal_add(p.buy_quantity, qty), decimal_mul(price, qty)) {
            (Some(q), Some(v)) => match decimal_add(p.buy_value, v) {
                Some(total) => Some(BasicPosition { buy_quantity: q, buy_value: total, ..p }),
                None => None,
            },
            _ => None,
        }
    } else if side == "sell"@ {
        match (decimal_add(p.sell_quantity, qty), decimal_mul(price, qty)) {
            (Some(q), Some(v)) => match decimal_add(p.sell_value, v) {
                Some(total) => Some(BasicPosition { sell_quantity: q, sell_value: total, ..p }),
                None => None,
            },
            _ => None,
        }
    } else {
        Some(p)
    }
}

/// One row folded into the positions (first-seen order, one per symbol). Rows
/// without a symbol or a side are skipped.
pub open spec fn with_row(ps: Seq<BasicPosition>, o: OrderRecord) -> Option<Seq<BasicPosition>> {
    match (o.symbol, o.side) {
        (Some(sym), Some(side)) => {
            let i = symbol_index(ps, sym@);
            let p = if i < ps.len() {
                ps[i]
            } else {
                flat_position(sym)
            };
            match booked(p, lower_text(side@), row_price(o), dec_abs(o.quantity)) {
                Some(p2) => Some(
                    if i < ps.len() {
                        ps.update(i, p2)
                    } else {
                        ps.push(p2)
                    },
                ),
                None => None,
            }
        },
        _ => Some(ps),
    }
}

/// All rows folded in order; `None` when any arithmetic overflows.
pub open spec fn positions_of(rows: Seq<OrderRecord>) -> Option<Seq<BasicPosition>>
    decreases rows.len(),
{
    if rows.len() == 0 {
        Some(Seq::empty())
    } else {
        match positions_of(rows.drop_last()) {
            Some(ps) => with_row(ps, rows.last()),
            None => None,
        }
    }
}

proof fn lemma_symbol_index(ps: Seq<BasicPosition>, sym: Seq<char>)
    ensures
        0 <= symbol_index(ps, sym) <= ps.len(),
        symbol_index(ps, sym) < ps.len() ==> ps[symbol_index(ps, sym)].symbol@ == sym,
        forall|j: int| 0 <= j < symbol_index(ps, sym) ==> ps[j].symbol@ != sym,
    decreases ps.len(),
{
    if ps.len() > 0 && ps[0].symbol@ != sym {
        lemma_symbol_index(ps.drop_first(), sym);
        assert forall|j: int| 0 <= j < symbol_index(ps, sym) implies ps[j].symbol@ != sym by {
            if j > 0 {
                assert(ps[j] == ps.drop_first()[j - 1]);
            }
        }
    }
}

proof fn lemma_positions_none_extends(rows: Seq<OrderRecord>, i: int)
    requires
        0 <= i <= rows.len(),
        positions_of(rows.subrange(0, i)) is None,
    ensures
        positions_of(rows) is None,
    decreases rows.len() - i,
{
    if i < rows.len() {
        let s = rows.subrange(0, i + 1);
        assert(s.drop_last() =~= rows.subrange(0, i));
        lemma_positions_none_extends(rows, i + 1);
    } else {
        assert(rows.subrange(0, i) =~= rows);
    }
}

fn find_symbol(ps: &Vec<BasicPosition>, sym: &String) -> (r: usize)
    ensures
        r == symbol_index(ps@, sym@),
{
    proof {
        lemma_symbol_index(ps@, sym@);
    }
    let mut i: usize = 0;
    while i < ps.len()
        invariant
            i <= ps@.len(),
            forall|j: int| 0 <= j < i ==> ps@[j].symbol@ != sym@,
            0 <= symbol_index(ps@, sym@) <= ps@.len(),
            symbol_index(ps@, sym@) < ps@.len() ==> ps@[symbol_index(ps@, sym@)].symbol@ == sym@,
            forall|j: int| 0 <= j < symbol_index(ps@, sym@) ==> ps@[j].symbol@ != sym@,
        decreases ps@.len() - i,
    {
        if ps[i].symbol == *sym {
            return i;
        }
        i = i + 1;
    }
    i
}

fn book_row(p: &BasicPosition, buy: bool, sell: bool, price: Dec, qty: Dec) -> (r: Option<BasicPosition>)
    requires
        !(buy && sell),
    ensures
        buy ==> r == booked(*p, "buy"@, price, qty),
        sell ==> r == booked(*p, "sell"@, price, qty),
        !buy && !sell ==> r == Some(*p),
{
    proof {
        reveal_strlit("buy");
        reveal_strlit("sell");
        assert("buy"@.len() == 3 && "sell"@.len() == 4);
        assert("sell"@ != "buy"@);
    }
    if buy {
        let q = match dec_checked_add(p.buy_quantity, qty) {
            Some(q) => q,
            None => return None,
        };
        let v = match dec_checked_mul(price, qty) {
            Some(v) => v,
            None => return None,
        };
        match dec_checked_add(p.buy_value, v) {
            Some(total) => Some(
                BasicPosition {
                    symbol: p.symbol.clone(),
                    buy_quantity: q,
                    sell_quantity: p.sell_quantity,
                    buy_value: total,
                    sell_value: p.sell_value,
                },
            ),
            None => None,
        }
    } else if sell {
        let q = match dec_checked_add(p.sell_quantity, qty) {
            Some(q) => q,
            None => return None,
        };
        let v = match dec_checked_mul(price, qty) {
            Some(v) => v,
            None => return None,
        };
        match dec_checked_add(p.sell_value, v) {
            Some(total) => Some(
                BasicPosition {
                    symbol: p.symbol.clone(),
                    buy_quantity: p.buy_quantity,
                    sell_quantity: q,
                    buy_value: p.buy_value,
                    sell_value: total,
                },
            ),
            None => None,
        }
    } else {
        Some(p.clone_position())
    }
}

impl BasicPosition {
    /// A copy with the same symbol text and numbers.
    pub fn clone_position(&self) -> (r: BasicPosition)
        ensures
            r == *self,
    {
        BasicPosition {
            symbol: self.symbol.clone(),
            buy_quantity: self.buy_quantity,
            sell_quantity: self.sell_quantity,
            buy_value: self.buy_value,
            sell_value: self.sell_value,
        }
    }
}

fn fold_rows(orders: &[OrderRecord]) -> (r: Option<Vec<BasicPosition>>)
    ensures
        match r {
            Some(v) => positions_of(orders@) == Some(v@),
            None => positions_of(orders@) is None,
        },
{
    let mut out: Vec<BasicPosition> = Vec::new();
    let mut i: usize = 0;
    proof {
        assert(orders@.subrange(0, 0) =~= Seq::<OrderRecord>::empty());
    }
    while i < orders.len()
        invariant
            i <= orders@.len(),
            positions_of(orders@.subrange(0, i as int)) == Some(out@),
        decreases orders@.len() - i,
    {
        let o = &orders[i];
        let ghost pre = out@;
        let ghost s = orders@.subrange(0, i + 1);
        proof {
            assert(s.drop_last() =~= orders@.subrange(0, i as int));
            assert(s.last() == orders@[i as int]);
        }
        match (&o.symbol, &o.side) {
            (Some(sym), Some(side)) => {
                let price = dec_larger(dec_larger(o.average_price, o.price), o.trigger_price);
                let qty = o.quantity.abs();
                let buy = lower_equals(side.as_str(), "buy");
                let sell = lower_equals(side.as_str(), "sell");
                proof {
                    reveal_strlit("buy");
                    reveal_strlit("sell");
                }
                let idx = find_symbol(&out, sym);
                let p = if idx < out.len() {
                    out[idx].clone_position()
                } else {
                    BasicPosition {
                        symbol: sym.clone(),
                        buy_quantity: Dec::zero(),
                        sell_quantity: Dec::zero(),
                        buy_value: Dec::zero(),
                        sell_value: Dec::zero(),
                    }
                };
                match book_row(&p, buy, sell, price, qty) {
                    Some(p2) => {
                        if idx < out.len() {
                            out.set(idx, p2);
                        } else {
                            out.push(p2);
                        }
                        proof {
                            assert(out@ =~= with_row(pre, orders@[i as int])->0);
                        }
                    },
                    None => {
                        proof {
                            lemma_positions_none_extends(orders@, i + 1);
                        }
                        return None;
                    },
                }
            },
            _ => {},
        }
        i = i + 1;
    }
    proof {
        assert(orders@.subrange(0, orders@.len() as int) =~= orders@);
    }
    Some(out)
}

/// Positions per symbol (first-seen order) from order rows: the price of a row
/// is the largest of its average, limit and trigger price, the quantity its
/// absolute value; `buy` and `sell` sides (any ASCII case) add to their side,
/// other sides only open the position; rows without symbol or side are skipped.
pub fn create_basic_positions_from_orders_dict(orders: &[OrderRecord]) -> (r: Vec<BasicPosition>)
    requires
        positions_of(orders@) is Some,
    ensures
        Some(r@) == positions_of(orders@),
{
    match fold_rows(orders) {
        Some(v) => v,
        None => {
            assert(false);
            Vec::new()
        },
    }
}

/// [`create_basic_positions_from_orders_dict`]; `None` where a sum or product overflows.
pub fn try_create_basic_positions(orders: &[OrderRecord]) -> (r: Option<Vec<BasicPosition>>)
    ensures
        match r {
            Some(v) => positions_of(orders@) == Some(v@),
            None => positions_of(orders@) is None,
        },
{
    match fold_rows(orders) {
        Some(_) => Some(create_basic_positions_from_orders_dict(orders)),
        None => None,
    }
}

} // verus!
