use vstd::prelude::*;
use vstd::utf8::encode_utf8;
use crate::messages::texts;

verus! {

/// Largest mantissa magnitude of a decimal: 2^96 - 1.
pub const MAX_MANTISSA: i128 = 0xFFFF_FFFF_FFFF_FFFF_FFFF_FFFF;

/// Largest number of fractional digits of a decimal.
pub const MAX_SCALE: u32 = 28;

/// `10^n`.
pub open spec fn pow10(n: nat) -> int
    decreases n,
{
    if n == 0 {
        1
    } else {
        10 * pow10((n - 1) as nat)
    }
}

/// A decimal number `mantissa / 10^scale`, in the range of
/// `rust_decimal::Decimal`: prices and sizes of the order book.
#[derive(Debug, Clone, Copy, PartialEq, Eq, Structural)]
pub struct Dec {
    pub mantissa: i128,
    pub scale: u32,
}

impl View for Dec {
    type V = (int, int);

    open spec fn view(&self) -> (int, int) {
        (self.mantissa as int, self.scale as int)
    }
}

impl Dec {
    pub open spec fn wf(self) -> bool {
        -MAX_MANTISSA <= self.mantissa <= MAX_MANTISSA && self.scale <= MAX_SCALE
    }

    /// The number, in units of `10^-28`.
    pub open spec fn value(self) -> int {
        self.mantissa * pow10((MAX_SCALE - self.scale) as nat)
    }

    /// The decimal with the given mantissa and scale.
    pub fn new(mantissa: i128, scale: u32) -> (r: Dec)
        ensures
            r.mantissa == mantissa,
            r.scale == scale,
    {
        Dec { mantissa, scale }
    }

    /// The decimal zero.
    pub fn zero() -> (r: Dec)
        ensures
            r.wf(),
            r.value() == 0,
            r@ == (0int, 0int),
    {
        Dec { mantissa: 0, scale: 0 }
    }

    /// Whether the number is zero.
    pub fn is_zero(&self) -> (r: bool)
        requires
            self.wf(),
        ensures
            r == (self.value() == 0),
    {
        proof {
            lemma_pow10_positive((MAX_SCALE - self.scale) as nat);
            lemma_value_sign(*self);
        }
        self.mantissa == 0
    }

    /// Whether the number is above zero.
    pub fn is_positive(&self) -> (r: bool)
        requires
            self.wf(),
        ensures
            r == (self.value() > 0),
    {
        proof {
            lemma_value_sign(*self);
        }
        self.mantissa > 0
    }

    /// Whether the number has no fractional part.
    pub fn is_whole(&self) -> (r: bool)
        requires
            self.wf(),
        ensures
            r == (abs(self.mantissa as int) % pow10(self.scale as nat) == 0),
    {
        let mut p: i128 = 1;
        let mut i: u32 = 0;
        while i < self.scale
            invariant
                i <= self.scale <= MAX_SCALE,
                p == pow10(i as nat),
            decreases self.scale - i,
        {
            proof {
                lemma_pow10_bound(i as nat);
                lemma_pow10_max();
                assert(pow10(i as nat) * 10 <= pow10(MAX_SCALE as nat));
                assert(p * 10 <= 10_000_000_000_000_000_000_000_000_000int);
                lemma_pow10_positive(i as nat);
            }
            p = p * 10;
            i = i + 1;
        }
        proof {
            lemma_pow10_positive(i as nat);
        }
        let magnitude: u128 = if self.mantissa < 0 {
            (-self.mantissa) as u128
        } else {
            self.mantissa as u128
        };
        magnitude % (p as u128) == 0
    }
}

pub proof fn lemma_pow10_positive(n: nat)
    ensures
        pow10(n) >= 1,
    decreases n,
{
    if n > 0 {
        lemma_pow10_positive((n - 1) as nat);
    }
}

/// The magnitude of an integer.
pub open spec fn abs(x: int) -> int {
    if x < 0 {
        -x
    } else {
        x
    }
}

proof fn lemma_pow10_max()
    ensures
        pow10(MAX_SCALE as nat) == 10_000_000_000_000_000_000_000_000_000int,
{
    reveal_with_fuel(pow10, 29);
}

proof fn lemma_pow10_bound(n: nat)
    requires
        n < MAX_SCALE,
    ensures
        pow10(n) * 10 <= pow10(MAX_SCALE as nat),
    decreases MAX_SCALE - n,
{
    if n + 1 < MAX_SCALE {
        lemma_pow10_bound(n + 1);
        lemma_pow10_positive(n);
    } else {
        assert(n + 1 == MAX_SCALE);
    }
    assert(pow10(n + 1) == 10 * pow10(n));
    if n + 1 < MAX_SCALE {
        lemma_pow10_monotone(n + 1);
    }
}

proof fn lemma_pow10_monotone(n: nat)
    requires
        n <= MAX_SCALE,
    ensures
        pow10(n) <= pow10(MAX_SCALE as nat),
    decreases MAX_SCALE - n,
{
    if n < MAX_SCALE {
        lemma_pow10_monotone(n + 1);
        lemma_pow10_positive(n);
    }
}

proof fn lemma_value_sign(d: Dec)
    ensures
        (d.value() > 0) == (d.mantissa > 0),
        (d.value() == 0) == (d.mantissa == 0),
{
    let p = pow10((MAX_SCALE - d.scale) as nat);
    lemma_pow10_positive((MAX_SCALE - d.scale) as nat);
    assert(d.value() == d.mantissa * p);
    assert((d.mantissa == 0) ==> d.mantissa * p == 0) by (nonlinear_arith);
    assert((d.mantissa > 0) ==> d.mantissa * p > 0) by (nonlinear_arith)
        requires p >= 1;
    assert((d.mantissa < 0) ==> d.mantissa * p < 0) by (nonlinear_arith)
        requires p >= 1;
}

/// The sum of two decimals, if it is in range.
pub uninterp spec fn dec_sum_of(a: (int, int), b: (int, int)) -> Option<(int, int)>;

/// The difference of two decimals, if it is in range.
pub uninterp spec fn dec_difference_of(a: (int, int), b: (int, int)) -> Option<(int, int)>;

/// The product of two decimals, if it is in range.
pub uninterp spec fn dec_product_of(a: (int, int), b: (int, int)) -> Option<(int, int)>;

/// The quotient of two decimals, if the divisor is not zero and it is in range.
pub uninterp spec fn dec_quotient_of(a: (int, int), b: (int, int)) -> Option<(int, int)>;

/// The text of a decimal, with exactly its own fractional digits.
pub uninterp spec fn dec_text_of(d: (int, int)) -> Seq<char>;

/// The text of a decimal with one fractional digit.
pub uninterp spec fn dec_text_one_digit_of(d: (int, int)) -> Seq<char>;

/// The CRC-32 (IEEE) checksum of some bytes.
pub uninterp spec fn crc32_of(bytes: Seq<u8>) -> u32;

/// Relies on `rust_decimal::Decimal::cmp`, which orders decimals by the
/// number they stand for.
#[verifier::external_body]
fn dec_cmp(a: Dec, b: Dec) -> (r: i8)
    requires
        a.wf(),
        b.wf(),
    ensures
        (r < 0) == (a.value() < b.value()),
        (r == 0) == (a.value() == b.value()),
        (r > 0) == (a.value() > b.value()),
{
    let x = rust_decimal::Decimal::from_i128_with_scale(a.mantissa, a.scale);
    let y = rust_decimal::Decimal::from_i128_with_scale(b.mantissa, b.scale);
    match x.cmp(&y) {
        std::cmp::Ordering::Less => -1,
        std::cmp::Ordering::Equal => 0,
        std::cmp::Ordering::Greater => 1,
    }
}

/// Relies on `rust_decimal::Decimal::checked_add`.
#[verifier::external_body]
fn dec_checked_add(a: Dec, b: Dec) -> (r: Option<Dec>)
    requires
        a.wf(),
        b.wf(),
    ensures
        r matches Some(d) ==> d.wf() && dec_sum_of(a@, b@) == Some(d@),
        r is None ==> dec_sum_of(a@, b@) is None,
{
    let x = rust_decimal::Decimal::from_i128_with_scale(a.mantissa, a.scale);
    let y = rust_decimal::Decimal::from_i128_with_scale(b.mantissa, b.scale);
    x.checked_add(y).map(|z| Dec { mantissa: z.mantissa(), scale: z.scale() })
}

/// Relies on `rust_decimal::Decimal::checked_sub`.
#[verifier::external_body]
fn dec_checked_sub(a: Dec, b: Dec) -> (r: Option<Dec>)
    requires
        a.wf(),
        b.wf(),
    ensures
        r matches Some(d) ==> d.wf() && dec_difference_of(a@, b@) == Some(d@),
        r is None ==> dec_difference_of(a@, b@) is None,
{
    let x = rust_decimal::Decimal::from_i128_with_scale(a.mantissa, a.scale);
    let y = rust_decimal::Decimal::from_i128_with_scale(b.mantissa, b.scale);
    x.checked_sub(y).map(|z| Dec { mantissa: z.mantissa(), scale: z.scale() })
}

/// Relies on `rust_decimal::Decimal::checked_mul`.
#[verifier::external_body]
fn dec_checked_mul(a: Dec, b: Dec) -> (r: Option<Dec>)
    requires
        a.wf(),
        b.wf(),
    ensures
        r matches Some(d) ==> d.wf() && dec_product_of(a@, b@) == Some(d@),
        r is None ==> dec_product_of(a@, b@) is None,
{
    let x = rust_decimal::Decimal::from_i128_with_scale(a.mantissa, a.scale);
    let y = rust_decimal::Decimal::from_i128_with_scale(b.mantissa, b.scale);
    x.checked_mul(y).map(|z| Dec { mantissa: z.mantissa(), scale: z.scale() })
}

/// Relies on `rust_decimal::Decimal::checked_div`: `None` for a zero divisor.
#[verifier::external_body]
fn dec_checked_div(a: Dec, b: Dec) -> (r: Option<Dec>)
    requires
        a.wf(),
        b.wf(),
    ensures
        r matches Some(d) ==> d.wf() && dec_quotient_of(a@, b@) == Some(d@),
        r is None ==> dec_quotient_of(a@, b@) is None,
        b.mantissa == 0 ==> r is None,
{
    let x = rust_decimal::Decimal::from_i128_with_scale(a.mantissa, a.scale);
    let y = rust_decimal::Decimal::from_i128_with_scale(b.mantissa, b.scale);
    x.checked_div(y).map(|z| Dec { mantissa: z.mantissa(), scale: z.scale() })
}

/// Relies on `Display` of `rust_decimal::Decimal`.
#[verifier::external_body]
fn dec_text(d: Dec) -> (r: String)
    requires
        d.wf(),
    ensures
        r@ == dec_text_of(d@),
{
    rust_decimal::Decimal::from_i128_with_scale(d.mantissa, d.scale).to_string()
}

/// Relies on `Display` of `rust_decimal::Decimal` with a precision of one digit.
#[verifier::external_body]
fn dec_text_one_digit(d: Dec) -> (r: String)
    requires
        d.wf(),
    ensures
        r@ == dec_text_one_digit_of(d@),
{
    format!("{:.1}", rust_decimal::Decimal::from_i128_with_scale(d.mantissa, d.scale))
}

/// Relies on `crc32fast::hash`.
#[verifier::external_body]
fn crc32(bytes: &[u8]) -> (r: u32)
    ensures
        r == crc32_of(bytes@),
{
    crc32fast::hash(bytes)
}

#[derive(Debug, Clone, Copy, PartialEq, Eq, Structural)]
pub enum MarketType {
    Future,
    Spot,
}

#[derive(Debug, Clone, Copy, PartialEq, Eq, Structural)]
pub enum Side {
    Buy,
    Sell,
}

#[derive(Debug, Clone, Copy, PartialEq, Eq, Structural)]
pub enum Type {
    Subscribed,
    Unsubscribed,
    Update,
    Error,
    Partial,
    Pong,
    Info,
}

#[derive(Debug, Clone, Copy, PartialEq, Eq, Structural)]
pub enum OrderType {
    Market,
    Limit,
}

/// Represents the status of the order.
/// However, the REST and websockets APIs assign these values differently.
///
/// When submitting orders over REST, the API will immediately return whether
/// the order is accepted into FTX's queue for processing, but not the results
/// of the processing. If the order is accepted into the queue, the API will
/// return an `OrderInfo` with `OrderStatus::New`, otherwise it will return an error.
///
/// If the order is rejected during processing (e.g. when submitting a post-only
/// limit order with a price that would be executed as a taker order), the user
/// will not know this unless they do one of the following:
/// - Call the `get_order` REST API to see if the order status has been updated
/// - Listen to orders over websockets to be notified of the update order status
///   as soon as it is available.
/// To get near-immediate feedback on the status of possibly-rejected orders,
/// we recommend subscribing to the `Orders` channel over websockets.
///
/// When listening to orders over websockets, the websockets API will report
/// only the status of the order when it has been processed:
/// - If an order is rejected upon processing, the websockets API will emit an
///   `OrderInfo` with `OrderStatus::Closed`. Unlike the REST API, it will not
///   return an `OrderInfo` with `OrderStatus::New`.
/// - If a limit order is accepted and not immediately filled upon processing,
///   the websockets API will emit an `OrderInfo` with `OrderStatus::New`,
///   confirming the order as active.
/// - If a limit or market order is accepted and filled immediately upon
///   processing, the websockets API emits an `OrderInfo` with
///   `OrderStatus::Closed`.
#[derive(Debug, Clone, Copy, PartialEq, Eq, Structural)]
pub enum OrderStatus {
    /// Rest: accepted but not processed yet; Ws: processed and confirmed active
    New,
    /// Applicable to Rest only
    Open,
    /// Rest: filled or cancelled; Ws: filled, rejected, or cancelled
    Closed,
}

#[derive(Debug, Clone, Copy, PartialEq, Eq, Structural)]
pub enum OrderbookAction {
    Partial,
    Update,
}

#[derive(Debug, Clone, Copy, PartialEq, Eq, Structural)]
pub enum Liquidity {
    Maker,
    Taker,
}

/// Price levels in strictly increasing price order, all in range.
pub open spec fn levels_sorted(s: Seq<(Dec, Dec)>) -> bool {
    &&& forall|i: int| 0 <= i < s.len() ==> (#[trigger] s[i]).0.wf() && s[i].1.wf()
    &&& forall|i: int, j: int| 0 <= i < j < s.len() ==> (#[trigger] s[i]).0.value() < (#[trigger] s[j]).0.value()
}

/// The levels by price: for each price value, its (price, quantity) entry.
pub open spec fn levels_map(s: Seq<(Dec, Dec)>) -> Map<int, (Dec, Dec)> {
    Map::new(
        |v: int| exists|i: int| 0 <= i < s.len() && (#[trigger] s[i]).0.value() == v,
        |v: int| s[choose|i: int| 0 <= i < s.len() && (#[trigger] s[i]).0.value() == v],
    )
}

/// The levels after setting the quantity at `price`: a level already at
/// that price keeps its own price text and takes the new quantity.
pub open spec fn level_set(m: Map<int, (Dec, Dec)>, price: Dec, qty: Dec) -> Map<int, (Dec, Dec)> {
    if m.dom().contains(price.value()) {
        m.insert(price.value(), (m[price.value()].0, qty))
    } else {
        m.insert(price.value(), (price, qty))
    }
}

proof fn lemma_levels_map_at(s: Seq<(Dec, Dec)>, i: int)
    requires
        levels_sorted(s),
        0 <= i < s.len(),
    ensures
        levels_map(s).dom().contains(s[i].0.value()),
        levels_map(s)[s[i].0.value()] == s[i],
{
    let v = s[i].0.value();
    assert(exists|k: int| 0 <= k < s.len() && (#[trigger] s[k]).0.value() == v);
    let j = choose|k: int| 0 <= k < s.len() && (#[trigger] s[k]).0.value() == v;
    if j < i {
        assert(s[j].0.value() < s[i].0.value());
    } else if j > i {
        assert(s[i].0.value() < s[j].0.value());
    }
}

/// Sets the quantity of the level at `price`, adding the level if there is none.
fn set_level(levels: &mut Vec<(Dec, Dec)>, price: Dec, qty: Dec)
    requires
        levels_sorted(old(levels)@),
        price.wf(),
        qty.wf(),
    ensures
        levels_sorted(final(levels)@),
        levels_map(final(levels)@) == level_set(levels_map(old(levels)@), price, qty),
{
    let ghost s0 = levels@;
    let n = levels.len();
    let mut p: usize = 0;
    let mut c: i8 = -1;
    while p < n && c < 0
        invariant
            n == levels@.len(),
            s0 == levels@,
            levels_sorted(s0),
            price.wf(),
            p <= n,
            forall|j: int| 0 <= j < p ==> (#[trigger] s0[j]).0.value() < price.value(),
            c >= 0 ==> p < n && (c == 0) == (s0[p as int].0.value() == price.value()) && (c > 0) == (
            s0[p as int].0.value() > price.value()),
        decreases n - p, if c < 0 { 1int } else { 0int },
    {
        c = dec_cmp(levels[p].0, price);
        if c < 0 {
            p = p + 1;
        }
    }
    let ghost m0 = levels_map(s0);
    let ghost expected = level_set(m0, price, qty);
    if p < n && c == 0 {
        let old_price = levels[p].0;
        proof {
            lemma_levels_map_at(s0, p as int);
        }
        levels.set(p, (old_price, qty));
        assert(levels_sorted(levels@)) by {
            assert forall|i: int, j: int| 0 <= i < j < levels@.len() implies (#[trigger] levels@[i]).0.value()
                < (#[trigger] levels@[j]).0.value() by {
                assert(s0[i].0.value() < s0[j].0.value());
            }
        }
        assert(levels_map(levels@) =~= expected) by {
            assert forall|v: int| #[trigger] levels_map(levels@).dom().contains(v) == expected.dom().contains(v) by {
                if levels_map(levels@).dom().contains(v) {
                    let i = choose|i: int| 0 <= i < levels@.len() && (#[trigger] levels@[i]).0.value() == v;
                    lemma_levels_map_at(s0, i);
                }
                if m0.dom().contains(v) {
                    let i = choose|i: int| 0 <= i < s0.len() && (#[trigger] s0[i]).0.value() == v;
                    assert(levels@[i].0.value() == v);
                }
            }
            assert forall|v: int| #[trigger] expected.dom().contains(v) implies levels_map(levels@)[v] == expected[v] by {
                assert(levels_map(levels@).dom().contains(v));
                let i = choose|i: int| 0 <= i < levels@.len() && (#[trigger] levels@[i]).0.value() == v;
                lemma_levels_map_at(levels@, i);
                lemma_levels_map_at(s0, i);
            }
        }
    } else {
        if p < n {
            assert(s0[p as int].0.value() > price.value());
        }
        levels.insert(p, (price, qty));
        assert(levels@ =~= s0.insert(p as int, (price, qty)));
        assert(levels_sorted(levels@)) by {
            assert forall|i: int, j: int| 0 <= i < j < levels@.len() implies (#[trigger] levels@[i]).0.value()
                < (#[trigger] levels@[j]).0.value() by {
                if j < p {
                    assert(s0[i].0.value() < s0[j].0.value());
                } else if j == p {
                } else if i < p {
                    assert(s0[i].0.value() < price.value());
                    if j - 1 > p {
                        assert(s0[p as int].0.value() < s0[j - 1].0.value());
                    }
                } else if i == p {
                    if j - 1 > p {
                        assert(s0[p as int].0.value() < s0[j - 1].0.value());
                    }
                } else {
                    assert(s0[i - 1].0.value() < s0[j - 1].0.value());
                }
            }
        }
        assert(!m0.dom().contains(price.value())) by {
            if m0.dom().contains(price.value()) {
                let i = choose|i: int| 0 <= i < s0.len() && (#[trigger] s0[i]).0.value() == price.value();
                if i < p {
                } else if i > p {
                    assert(s0[p as int].0.value() < s0[i].0.value());
                }
            }
        }
        assert(levels_map(levels@) =~= expected) by {
            assert forall|v: int| #[trigger] levels_map(levels@).dom().contains(v) implies expected.dom().contains(v) by {
                let i = choose|i: int| 0 <= i < levels@.len() && (#[trigger] levels@[i]).0.value() == v;
                if i < p {
                    assert(levels@[i] == s0[i]);
                    lemma_levels_map_at(s0, i);
                } else if i > p {
                    assert(levels@[i] == s0[i - 1]);
                    lemma_levels_map_at(s0, i - 1);
                }
            }
            assert forall|v: int| #[trigger] expected.dom().contains(v) implies levels_map(levels@).dom().contains(v) by {
                if v == price.value() {
                    lemma_levels_map_at(levels@, p as int);
                } else {
                    let i = choose|i: int| 0 <= i < s0.len() && (#[trigger] s0[i]).0.value() == v;
                    if i < p {
                        assert(levels@[i] == s0[i]);
                        lemma_levels_map_at(levels@, i);
                    } else {
                        assert(levels@[i + 1] == s0[i]);
                        lemma_levels_map_at(levels@, i + 1);
                    }
                }
            }
            assert forall|v: int| #[trigger] expected.dom().contains(v) implies levels_map(levels@)[v] == expected[v] by {
                let i = choose|i: int| 0 <= i < levels@.len() && (#[trigger] levels@[i]).0.value() == v;
                lemma_levels_map_at(levels@, i);
                if i < p {
                    assert(levels@[i] == s0[i]);
                    lemma_levels_map_at(s0, i);
                } else if i > p {
                    assert(levels@[i] == s0[i - 1]);
                    lemma_levels_map_at(s0, i - 1);
                }
            }
        }
    }
}

/// Removes the level at `price`, if there is one.
fn remove_level(levels: &mut Vec<(Dec, Dec)>, price: Dec)
    requires
        levels_sorted(old(levels)@),
        price.wf(),
    ensures
        levels_sorted(final(levels)@),
        levels_map(final(levels)@) == levels_map(old(levels)@).remove(price.value()),
{
    let ghost s0 = levels@;
    let n = levels.len();
    let mut p: usize = 0;
    let mut found = false;
    while p < n && !found
        invariant
            n == levels@.len(),
            s0 == levels@,
            levels_sorted(s0),
            price.wf(),
            p <= n,
            forall|j: int| 0 <= j < p ==> (#[trigger] s0[j]).0.value() != price.value(),
            found ==> p < n && s0[p as int].0.value() == price.value(),
        decreases n - p, if found { 0int } else { 1int },
    {
        if dec_cmp(levels[p].0, price) == 0 {
            found = true;
        } else {
            p = p + 1;
        }
    }
    let ghost m0 = levels_map(s0);
    let ghost expected = m0.remove(price.value());
    if found {
        levels.remove(p);
        assert(levels@ =~= s0.remove(p as int));
        assert(levels_sorted(levels@)) by {
            assert forall|i: int, j: int| 0 <= i < j < levels@.len() implies (#[trigger] levels@[i]).0.value()
                < (#[trigger] levels@[j]).0.value() by {
                if j < p {
                    assert(s0[i].0.value() < s0[j].0.value());
                } else if i < p {
                    assert(s0[i].0.value() < s0[j + 1].0.value());
                } else {
                    assert(s0[i + 1].0.value() < s0[j + 1].0.value());
                }
            }
        }
        assert(levels_map(levels@) =~= expected) by {
            assert forall|v: int| #[trigger] levels_map(levels@).dom().contains(v) implies expected.dom().contains(v) by {
                let i = choose|i: int| 0 <= i < levels@.len() && (#[trigger] levels@[i]).0.value() == v;
                if i < p {
                    assert(levels@[i] == s0[i]);
                    lemma_levels_map_at(s0, i);
                    assert(s0[i].0.value() < s0[p as int].0.value());
                } else {
                    assert(levels@[i] == s0[i + 1]);
                    lemma_levels_map_at(s0, i + 1);
                    assert(s0[p as int].0.value() < s0[i + 1].0.value());
                }
            }
            assert forall|v: int| #[trigger] expected.dom().contains(v) implies levels_map(levels@).dom().contains(v) by {
                let i = choose|i: int| 0 <= i < s0.len() && (#[trigger] s0[i]).0.value() == v;
                if i < p {
                    assert(levels@[i] == s0[i]);
                    lemma_levels_map_at(levels@, i);
                } else if i > p {
                    assert(levels@[i - 1] == s0[i]);
                    lemma_levels_map_at(levels@, i - 1);
                }
            }
            assert forall|v: int| #[trigger] expected.dom().contains(v) implies levels_map(levels@)[v] == expected[v] by {
                let i = choose|i: int| 0 <= i < levels@.len() && (#[trigger] levels@[i]).0.value() == v;
                lemma_levels_map_at(levels@, i);
                if i < p {
                    assert(levels@[i] == s0[i]);
                    lemma_levels_map_at(s0, i);
                } else {
                    assert(levels@[i] == s0[i + 1]);
                    lemma_levels_map_at(s0, i + 1);
                }
            }
        }
    } else {
        assert(levels_map(levels@) =~= expected) by {
            assert(!m0.dom().contains(price.value()));
        }
    }
}

/// Every price and quantity of a list of levels is in range.
pub open spec fn levels_in_range(u: Seq<(Dec, Dec)>) -> bool {
    forall|i: int| 0 <= i < u.len() ==> (#[trigger] u[i]).0.wf() && u[i].1.wf()
}

/// The levels after applying a list of (price, quantity) changes in order.
/// In an update a zero quantity removes the level; a partial (snapshot)
/// sets every level it lists.
pub open spec fn apply_levels(m: Map<int, (Dec, Dec)>, u: Seq<(Dec, Dec)>, partial: bool) -> Map<int, (Dec, Dec)>
    decreases u.len(),
{
    if u.len() == 0 {
        m
    } else {
        let before = apply_levels(m, u.drop_last(), partial);
        let e = u.last();
        if !partial && e.1.value() == 0 {
            before.remove(e.0.value())
        } else {
            level_set(before, e.0, e.1)
        }
    }
}

/// An order-book message: a snapshot (`Partial`) or changes (`Update`) to
/// the bid and ask levels, with the checksum of the book that results.
#[derive(Debug, Clone)]
pub struct OrderbookData {
    pub action: OrderbookAction,
    pub bids: Vec<(Dec, Dec)>,
    pub asks: Vec<(Dec, Dec)>,
    pub checksum: u32,
}

fn apply_changes(levels: &mut Vec<(Dec, Dec)>, changes: &Vec<(Dec, Dec)>, partial: bool)
    requires
        levels_sorted(old(levels)@),
        levels_in_range(changes@),
    ensures
        levels_sorted(final(levels)@),
        levels_map(final(levels)@) == apply_levels(levels_map(old(levels)@), changes@, partial),
{
    let ghost m0 = levels_map(levels@);
    let mut i: usize = 0;
    while i < changes.len()
        invariant
            i <= changes@.len(),
            levels_in_range(changes@),
            levels_sorted(levels@),
            levels_map(levels@) == apply_levels(m0, changes@.subrange(0, i as int), partial),
        decreases changes@.len() - i,
    {
        let (price, qty) = changes[i];
        proof {
            let u = changes@.subrange(0, i as int + 1);
            assert(u.drop_last() =~= changes@.subrange(0, i as int));
            assert(u.last() == changes@[i as int]);
        }
        if !partial && qty.is_zero() {
            remove_level(levels, price);
        } else {
            set_level(levels, price, qty);
        }
        i = i + 1;
    }
    assert(changes@.subrange(0, changes@.len() as int) =~= changes@);
}

/// The levels from the last to the first: bids best first.
pub open spec fn descending(s: Seq<(Dec, Dec)>) -> Seq<(Dec, Dec)> {
    Seq::new(s.len(), |k: int| s[s.len() - 1 - k])
}

/// The decimal that a (mantissa, scale) pair stands for.
pub open spec fn dec_of(v: (int, int)) -> Dec {
    Dec { mantissa: v.0 as i128, scale: v.1 as u32 }
}

/// The fills of a market order for `remaining` against levels taken in
/// order: whole levels while they fit, then part of the next one. `None`
/// when the levels run out first or a difference is out of range.
pub open spec fn fills_of(levels: Seq<(Dec, Dec)>, remaining: Dec) -> Option<Seq<(Dec, Dec)>>
    decreases levels.len(),
{
    if remaining.value() <= 0 {
        Some(Seq::empty())
    } else if levels.len() == 0 {
        None
    } else {
        let e = levels[0];
        if e.1.value() <= remaining.value() {
            match dec_difference_of(remaining@, e.1@) {
                Some(rest) => match fills_of(levels.drop_first(), dec_of(rest)) {
                    Some(f) => Some(seq![e] + f),
                    None => None,
                },
                None => None,
            }
        } else {
            Some(seq![(e.0, remaining)])
        }
    }
}

/// The sum of price times quantity over the fills, if every step is in range.
pub open spec fn notional_of(fills: Seq<(Dec, Dec)>) -> Option<(int, int)>
    decreases fills.len(),
{
    if fills.len() == 0 {
        Some((0, 0))
    } else {
        match notional_of(fills.drop_last()) {
            Some(sum) => match dec_product_of(fills.last().0@, fills.last().1@) {
                Some(prod) => dec_sum_of(sum, prod),
                None => None,
            },
            None => None,
        }
    }
}

/// The average execution price of a market order of `quantity` against
/// levels taken in order.
pub open spec fn quote_of(levels: Seq<(Dec, Dec)>, quantity: Dec) -> Option<(int, int)> {
    match fills_of(levels, quantity) {
        Some(f) => match notional_of(f) {
            Some(n) => dec_quotient_of(n, quantity@),
            None => None,
        },
        None => None,
    }
}

/// The text of a price or quantity in a checksum: at least one fractional digit.
pub open spec fn padded_text_of(d: Dec) -> Seq<char> {
    if abs(d.mantissa as int) % pow10(d.scale as nat) == 0 {
        dec_text_one_digit_of(d@)
    } else {
        dec_text_of(d@)
    }
}

pub open spec fn level_text(e: (Dec, Dec)) -> Seq<char> {
    padded_text_of(e.0) + seq![':'] + padded_text_of(e.1)
}

/// The level texts that a checksum covers, in the order it takes them: the
/// k-th best bid, then the k-th best ask, for k below `n`.
pub open spec fn checksum_parts(bids_best_first: Seq<(Dec, Dec)>, asks: Seq<(Dec, Dec)>, n: nat) -> Seq<Seq<char>>
    decreases n,
{
    if n == 0 {
        Seq::empty()
    } else {
        let k = n - 1;
        checksum_parts(bids_best_first, asks, (n - 1) as nat) + (if k < bids_best_first.len() {
            seq![level_text(bids_best_first[k])]
        } else {
            Seq::empty()
        }) + (if k < asks.len() {
            seq![level_text(asks[k])]
        } else {
            Seq::empty()
        })
    }
}

/// Texts joined with `:`.
pub open spec fn colon_joined(parts: Seq<Seq<char>>) -> Seq<char>
    decreases parts.len(),
{
    if parts.len() == 0 {
        Seq::empty()
    } else if parts.len() == 1 {
        parts[0]
    } else {
        colon_joined(parts.drop_last()) + seq![':'] + parts.last()
    }
}

/// Levels a checksum covers on each side.
pub const CHECKSUM_DEPTH: usize = 100;

/// The state of one market's order book: bid and ask levels, each kept in
/// increasing price order with one level per price.
pub struct Orderbook {
    symbol: String,
    bids: Vec<(Dec, Dec)>,
    asks: Vec<(Dec, Dec)>,
}

impl Orderbook {
    pub closed spec fn symbol_text(&self) -> Seq<char> {
        self.symbol@
    }

    /// The market this book belongs to.
    pub fn symbol(&self) -> (r: &str)
        ensures
            r@ == self.symbol_text(),
    {
        self.symbol.as_str()
    }

    pub closed spec fn bid_levels(&self) -> Seq<(Dec, Dec)> {
        self.bids@
    }

    pub closed spec fn ask_levels(&self) -> Seq<(Dec, Dec)> {
        self.asks@
    }

    pub open spec fn wf(&self) -> bool {
        levels_sorted(self.bid_levels()) && levels_sorted(self.ask_levels())
    }

    /// An empty book for `symbol`.
    pub fn new(symbol: String) -> (r: Orderbook)
        ensures
            r.wf(),
            r.symbol_text() == symbol@,
            r.bid_levels().len() == 0,
            r.ask_levels().len() == 0,
    {
        Orderbook { symbol, bids: Vec::new(), asks: Vec::new() }
    }

    /// Applies a snapshot or an update to both sides of the book.
    pub fn update(&mut self, data: &OrderbookData)
        requires
            old(self).wf(),
            levels_in_range(data.bids@),
            levels_in_range(data.asks@),
        ensures
            final(self).wf(),
            final(self).symbol_text() == old(self).symbol_text(),
            levels_map(final(self).bid_levels()) == apply_levels(
                levels_map(old(self).bid_levels()),
                data.bids@,
                data.action == OrderbookAction::Partial,
            ),
            levels_map(final(self).ask_levels()) == apply_levels(
                levels_map(old(self).ask_levels()),
                data.asks@,
                data.action == OrderbookAction::Partial,
            ),
    {
        let partial = match data.action {
            OrderbookAction::Partial => true,
            OrderbookAction::Update => false,
        };
        apply_changes(&mut self.bids, &data.bids, partial);
        apply_changes(&mut self.asks, &data.asks, partial);
    }

    /// The best bid (highest price) with its quantity.
    pub fn best_bid(&self) -> (r: Option<(Dec, Dec)>)
        requires
            self.wf(),
        ensures
            self.bid_levels().len() == 0 ==> r is None,
            self.bid_levels().len() > 0 ==> r == Some(self.bid_levels().last()),
            r matches Some(b) ==> forall|i: int| 0 <= i < self.bid_levels().len() ==> (#[trigger] self.bid_levels()[i]).0.value()
                <= b.0.value(),
    {
        let n = self.bids.len();
        if n == 0 {
            None
        } else {
            proof {
                assert forall|i: int| 0 <= i < n implies (#[trigger] self.bid_levels()[i]).0.value()
                    <= self.bid_levels()[n - 1].0.value() by {
                    if i < n - 1 {
                        assert(self.bids@[i].0.value() < self.bids@[n - 1].0.value());
                    }
                }
            }
            Some(self.bids[n - 1])
        }
    }

    /// The best ask (lowest price) with its quantity.
    pub fn best_ask(&self) -> (r: Option<(Dec, Dec)>)
        requires
            self.wf(),
        ensures
            self.ask_levels().len() == 0 ==> r is None,
            self.ask_levels().len() > 0 ==> r == Some(self.ask_levels()[0]),
            r matches Some(a) ==> forall|i: int| 0 <= i < self.ask_levels().len() ==> a.0.value() <= (#[trigger] self.ask_levels()[i]).0.value(),
    {
        if self.asks.len() == 0 {
            None
        } else {
            proof {
                assert forall|i: int| 0 <= i < self.asks@.len() implies self.ask_levels()[0].0.value()
                    <= (#[trigger] self.ask_levels()[i]).0.value() by {
                    if i > 0 {
                        assert(self.asks@[0].0.value() < self.asks@[i].0.value());
                    }
                }
            }
            Some(self.asks[0])
        }
    }

    /// The price of the best bid.
    pub fn bid_price(&self) -> (r: Option<Dec>)
        requires
            self.wf(),
        ensures
            self.bid_levels().len() == 0 ==> r is None,
            self.bid_levels().len() > 0 ==> r == Some(self.bid_levels().last().0),
    {
        match self.best_bid() {
            Some(b) => Some(b.0),
            None => None,
        }
    }

    /// The price of the best ask.
    pub fn ask_price(&self) -> (r: Option<Dec>)
        requires
            self.wf(),
        ensures
            self.ask_levels().len() == 0 ==> r is None,
            self.ask_levels().len() > 0 ==> r == Some(self.ask_levels()[0].0),
    {
        match self.best_ask() {
            Some(a) => Some(a.0),
            None => None,
        }
    }

    /// The best bid and the best ask, when both sides have a level.
    pub fn best_bid_and_ask(&self) -> (r: Option<((Dec, Dec), (Dec, Dec))>)
        requires
            self.wf(),
        ensures
            (self.bid_levels().len() == 0 || self.ask_levels().len() == 0) ==> r is None,
            self.bid_levels().len() > 0 && self.ask_levels().len() > 0 ==> r == Some(
                (self.bid_levels().last(), self.ask_levels()[0]),
            ),
    {
        match (self.best_bid(), self.best_ask()) {
            (Some(b), Some(a)) => Some((b, a)),
            _ => None,
        }
    }

    /// The midpoint of the best bid and ask prices, not rounded to the
    /// price increment. `None` when a side is empty or the sum is out of range.
    pub fn mid_price(&self) -> (r: Option<Dec>)
        requires
            self.wf(),
        ensures
            (self.bid_levels().len() == 0 || self.ask_levels().len() == 0) ==> r is None,
            self.bid_levels().len() > 0 && self.ask_levels().len() > 0 ==> match dec_sum_of(
                self.bid_levels().last().0@,
                self.ask_levels()[0].0@,
            ) {
                Some(sum) => match dec_quotient_of(sum, (2int, 0int)) {
                    Some(q) => r matches Some(d) && d@ == q,
                    None => r is None,
                },
                None => r is None,
            },
    {
        let bid = match self.bid_price() {
            Some(b) => b,
            None => return None,
        };
        let ask = match self.ask_price() {
            Some(a) => a,
            None => return None,
        };
        let sum = match dec_checked_add(bid, ask) {
            Some(s) => s,
            None => return None,
        };
        dec_checked_div(sum, Dec::new(2, 0))
    }

    /// The levels that a market order of `side` walks through, best first:
    /// asks from the lowest for a buy, bids from the highest for a sell.
    pub open spec fn walk(&self, side: Side) -> Seq<(Dec, Dec)> {
        match side {
            Side::Buy => self.ask_levels(),
            Side::Sell => descending(self.bid_levels()),
        }
    }

    /// The expected average execution price of a market order of
    /// `quantity` on `side` against the book. `None` when the order is
    /// larger than the liquidity on that side, when the quantity is zero,
    /// or when a step of the sum is out of range.
    pub fn quote(&self, side: Side, quantity: Dec) -> (r: Option<Dec>)
        requires
            self.wf(),
            quantity.wf(),
        ensures
            r matches Some(d) ==> quote_of(self.walk(side), quantity) == Some(d@),
            r is None ==> quote_of(self.walk(side), quantity) is None,
    {
        let n = match side {
            Side::Buy => self.asks.len(),
            Side::Sell => self.bids.len(),
        };
        let ghost order = self.walk(side);
        let mut fills: Vec<(Dec, Dec)> = Vec::new();
        let mut remaining = quantity;
        let mut k: usize = 0;
        assert(order.skip(0) =~= order);
        proof {
            match fills_of(order, quantity) {
                Some(g) => assert(fills@ + g =~= g),
                None => {},
            }
        }
        while remaining.is_positive()
            invariant
                self.wf(),
                n == order.len(),
                order == self.walk(side),
                k <= n,
                remaining.wf(),
                levels_in_range(fills@),
                fills_of(order, quantity) == prefixed(fills@, fills_of(order.skip(k as int), remaining)),
            decreases n - k,
        {
            if k >= n {
                return None;
            }
            let e = match side {
                Side::Buy => self.asks[k],
                Side::Sell => self.bids[n - 1 - k],
            };
            let ghost rest_levels = order.skip(k as int);
            assert(rest_levels[0] == e);
            assert(rest_levels.drop_first() =~= order.skip(k as int + 1));
            assert(e.0.wf() && e.1.wf());
            if dec_cmp(e.1, remaining) <= 0 {
                match dec_checked_sub(remaining, e.1) {
                    None => return None,
                    Some(rest) => {
                        let ghost before = fills@;
                        fills.push(e);
                        assert(dec_of(rest@) == rest);
                        assert(fills@ =~= before + seq![e]);
                        proof {
                            match fills_of(order.skip(k as int + 1), rest) {
                                Some(g) => assert(before + (seq![e] + g) =~= fills@ + g),
                                None => {},
                            }
                        }
                        remaining = rest;
                    },
                }
            } else {
                let ghost before = fills@;
                fills.push((e.0, remaining));
                assert(fills@ =~= before + seq![(e.0, remaining)]);
                remaining = Dec::zero();
                assert(fills_of(order.skip(k as int + 1), remaining) == Some(Seq::<(Dec, Dec)>::empty()));
                assert(fills@ + Seq::<(Dec, Dec)>::empty() =~= fills@);
            }
            k = k + 1;
        }
        assert(fills@ + Seq::<(Dec, Dec)>::empty() =~= fills@);
        assert(fills_of(order, quantity) == Some(fills@));
        let mut dot = Dec::zero();
        let mut j: usize = 0;
        while j < fills.len()
            invariant
                j <= fills@.len(),
                levels_in_range(fills@),
                order == self.walk(side),
                fills_of(order, quantity) == Some(fills@),
                dot.wf(),
                notional_of(fills@.subrange(0, j as int)) == Some(dot@),
            decreases fills@.len() - j,
        {
            let f = fills[j];
            proof {
                let u = fills@.subrange(0, j as int + 1);
                assert(u.drop_last() =~= fills@.subrange(0, j as int));
                assert(u.last() == f);
            }
            let prod = match dec_checked_mul(f.0, f.1) {
                Some(p) => p,
                None => {
                    proof {
                        lemma_notional_none_extends(fills@, j as int + 1);
                    }
                    return None;
                },
            };
            dot = match dec_checked_add(dot, prod) {
                Some(d) => d,
                None => {
                    proof {
                        lemma_notional_none_extends(fills@, j as int + 1);
                    }
                    return None;
                },
            };
            j = j + 1;
        }
        assert(fills@.subrange(0, fills@.len() as int) =~= fills@);
        dec_checked_div(dot, quantity)
    }

    /// Whether `checksum` is the CRC-32 of the book's top levels: up to
    /// the hundred best bids and asks, alternating, as `price:quantity`
    /// texts joined with `:`.
    pub fn verify_checksum(&self, checksum: u32) -> (r: bool)
        requires
            self.wf(),
        ensures
            r == (crc32_of(
                encode_utf8(
                    colon_joined(checksum_parts(descending(self.bid_levels()), self.ask_levels(), CHECKSUM_DEPTH as nat)),
                ),
            ) == checksum),
    {
        let nb = self.bids.len();
        let na = self.asks.len();
        let ghost desc = descending(self.bid_levels());
        let mut parts: Vec<String> = Vec::new();
        let mut i: usize = 0;
        while i < CHECKSUM_DEPTH
            invariant
                self.wf(),
                nb == self.bid_levels().len(),
                na == self.ask_levels().len(),
                desc == descending(self.bid_levels()),
                i <= CHECKSUM_DEPTH,
                texts(parts@) == checksum_parts(desc, self.ask_levels(), i as nat),
            decreases CHECKSUM_DEPTH - i,
        {
            let ghost before = parts@;
            if i < nb {
                let bid = self.bids[nb - 1 - i];
                assert(desc[i as int] == bid);
                parts.push(level_string(bid));
            }
            let ghost middle = parts@;
            if i < na {
                parts.push(level_string(self.asks[i]));
            }
            proof {
                let bid_part = if (i as int) < desc.len() {
                    seq![level_text(desc[i as int])]
                } else {
                    Seq::<Seq<char>>::empty()
                };
                let ask_part = if (i as int) < self.ask_levels().len() {
                    seq![level_text(self.ask_levels()[i as int])]
                } else {
                    Seq::<Seq<char>>::empty()
                };
                assert(texts(middle) =~= texts(before) + bid_part);
                assert(texts(parts@) =~= texts(middle) + ask_part);
                assert(checksum_parts(desc, self.ask_levels(), (i + 1) as nat) == checksum_parts(desc, self.ask_levels(), i as nat)
                    + bid_part + ask_part);
            }
            i = i + 1;
        }
        let mut joined = String::new();
        let mut j: usize = 0;
        while j < parts.len()
            invariant
                j <= parts@.len(),
                joined@ == colon_joined(texts(parts@).subrange(0, j as int)),
            decreases parts@.len() - j,
        {
            let ghost before = joined@;
            if j > 0 {
                joined.append(":");
            }
            joined.append(parts[j].as_str());
            proof {
                reveal_strlit(":");
                let u = texts(parts@).subrange(0, j as int + 1);
                assert(u.drop_last() =~= texts(parts@).subrange(0, j as int));
                if j == 0 {
                    assert(joined@ =~= u[0]);
                } else {
                    assert(joined@ =~= before + seq![':'] + u.last());
                }
            }
            j = j + 1;
        }
        assert(texts(parts@).subrange(0, parts@.len() as int) =~= texts(parts@));
        crc32(joined.as_str().as_bytes()) == checksum
    }
}

/// `f` followed by the fills of `r`, if there are any.
pub open spec fn prefixed(f: Seq<(Dec, Dec)>, r: Option<Seq<(Dec, Dec)>>) -> Option<Seq<(Dec, Dec)>> {
    match r {
        Some(g) => Some(f + g),
        None => None,
    }
}

proof fn lemma_notional_none_extends(s: Seq<(Dec, Dec)>, j: int)
    requires
        0 <= j <= s.len(),
        notional_of(s.subrange(0, j)) is None,
    ensures
        notional_of(s) is None,
    decreases s.len() - j,
{
    if j < s.len() {
        let u = s.subrange(0, j + 1);
        assert(u.drop_last() =~= s.subrange(0, j));
        lemma_notional_none_extends(s, j + 1);
    } else {
        assert(s.subrange(0, j) =~= s);
    }
}

/// A price or quantity as the checksum writes it: with one fractional
/// digit when it is whole.
fn padded_text(d: Dec) -> (r: String)
    requires
        d.wf(),
    ensures
        r@ == padded_text_of(d),
{
    if d.is_whole() {
        dec_text_one_digit(d)
    } else {
        dec_text(d)
    }
}

fn level_string(e: (Dec, Dec)) -> (r: String)
    requires
        e.0.wf(),
        e.1.wf(),
    ensures
        r@ == level_text(e),
{
    let mut out = padded_text(e.0);
    out.append(":");
    let q = padded_text(e.1);
    out.append(q.as_str());
    proof {
        reveal_strlit(":");
    }
    assert(out@ =~= level_text(e));
    out
}

} // verus!
