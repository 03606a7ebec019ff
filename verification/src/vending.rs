use vstd::prelude::*;
use vstd::string::StringExecFns;

verus! {

/// A denomination accepted by the vending machine.
#[derive(Clone, Copy, Debug, PartialEq, Eq, Hash, Structural)]
pub enum Coin {
    One,
    Two,
    Five,
    Ten,
    Twenty,
    Fifty,
}

impl Coin {
    /// The face value of the coin.
    pub open spec fn spec_value(self) -> u32 {
        match self {
            Coin::One => 1,
            Coin::Two => 2,
            Coin::Five => 5,
            Coin::Ten => 10,
            Coin::Twenty => 20,
            Coin::Fifty => 50,
        }
    }

    pub fn value(&self) -> (v: u32)
        ensures
            v == self.spec_value(),
    {
        match self {
            Coin::One => 1,
            Coin::Two => 2,
            Coin::Five => 5,
            Coin::Ten => 10,
            Coin::Twenty => 20,
            Coin::Fifty => 50,
        }
    }
}

/// How many coins of each denomination a till holds; `None` means the
/// denomination has never been put in, `Some(0)` that it ran out.
#[derive(Clone, Copy, Debug)]
pub struct CoinCounts {
    pub ones: Option<u32>,
    pub twos: Option<u32>,
    pub fives: Option<u32>,
    pub tens: Option<u32>,
    pub twenties: Option<u32>,
    pub fifties: Option<u32>,
}

impl CoinCounts {
    /// The entry for one denomination.
    pub open spec fn spec_count(self, c: Coin) -> Option<u32> {
        match c {
            Coin::One => self.ones,
            Coin::Two => self.twos,
            Coin::Five => self.fives,
            Coin::Ten => self.tens,
            Coin::Twenty => self.twenties,
            Coin::Fifty => self.fifties,
        }
    }

    /// The number of coins of one denomination, absent counting as zero.
    pub open spec fn count_or_zero(self, c: Coin) -> int {
        match self.spec_count(c) {
            Some(n) => n as int,
            None => 0,
        }
    }

    /// The till after `c`'s entry is set to `n`.
    pub open spec fn spec_insert(self, c: Coin, n: u32) -> CoinCounts {
        match c {
            Coin::One => CoinCounts { ones: Some(n), ..self },
            Coin::Two => CoinCounts { twos: Some(n), ..self },
            Coin::Five => CoinCounts { fives: Some(n), ..self },
            Coin::Ten => CoinCounts { tens: Some(n), ..self },
            Coin::Twenty => CoinCounts { twenties: Some(n), ..self },
            Coin::Fifty => CoinCounts { fifties: Some(n), ..self },
        }
    }

    /// The value of all held coins.
    pub open spec fn total(self) -> int {
        1 * self.count_or_zero(Coin::One) + 2 * self.count_or_zero(Coin::Two) + 5
            * self.count_or_zero(Coin::Five) + 10 * self.count_or_zero(Coin::Ten) + 20
            * self.count_or_zero(Coin::Twenty) + 50 * self.count_or_zero(Coin::Fifty)
    }

    /// An empty till.
    pub fn new() -> (r: CoinCounts)
        ensures
            forall|c: Coin| #[trigger] r.spec_count(c) is None,
            r.total() == 0,
    {
        CoinCounts { ones: None, twos: None, fives: None, tens: None, twenties: None, fifties: None }
    }

    /// The entry for one denomination.
    pub fn get(&self, c: Coin) -> (r: Option<u32>)
        ensures
            r == self.spec_count(c),
    {
        match c {
            Coin::One => self.ones,
            Coin::Two => self.twos,
            Coin::Five => self.fives,
            Coin::Ten => self.tens,
            Coin::Twenty => self.twenties,
            Coin::Fifty => self.fifties,
        }
    }

    /// Sets the entry for `c` to `n` and returns the old entry.
    pub fn insert(&mut self, c: Coin, n: u32) -> (prev: Option<u32>)
        ensures
            prev == old(self).spec_count(c),
            *final(self) == old(self).spec_insert(c, n),
    {
        let prev = self.get(c);
        match c {
            Coin::One => {
                self.ones = Some(n);
            },
            Coin::Two => {
                self.twos = Some(n);
            },
            Coin::Five => {
                self.fives = Some(n);
            },
            Coin::Ten => {
                self.tens = Some(n);
            },
            Coin::Twenty => {
                self.twenties = Some(n);
            },
            Coin::Fifty => {
                self.fifties = Some(n);
            },
        }
        prev
    }
}

/// Coins a customer enters, by denomination.
pub struct Money {
    pub coins: CoinCounts,
}

impl Money {
    /// Money with no coins in it.
    pub fn new() -> (m: Money)
        ensures
            forall|c: Coin| #[trigger] m.coins.spec_count(c) is None,
            m.coins.total() == 0,
    {
        Money { coins: CoinCounts::new() }
    }

    /// The value of the held coins.
    pub fn calc_amount(&self) -> (amount: u32)
        requires
            self.coins.total() <= u32::MAX,
        ensures
            amount == self.coins.total(),
    {
        let ones = self.coins.get(Coin::One).unwrap_or(0);
        let twos = self.coins.get(Coin::Two).unwrap_or(0);
        let fives = self.coins.get(Coin::Five).unwrap_or(0);
        let tens = self.coins.get(Coin::Ten).unwrap_or(0);
        let twenties = self.coins.get(Coin::Twenty).unwrap_or(0);
        let fifties = self.coins.get(Coin::Fifty).unwrap_or(0);
        1 * ones + 2 * twos + 5 * fives + 10 * tens + 20 * twenties + 50 * fifties
    }
}

/// A product of the vending machine: its name and its price.
#[derive(Clone, Debug)]
pub struct Product {
    pub price: u32,
    pub name: String,
}

impl Product {
    pub fn new(title: &str, price: u32) -> (p: Product)
        ensures
            p.name@ == title@,
            p.price == price,
    {
        Product { name: title.to_owned(), price }
    }
}

/// What equality of products means in contracts: same price, same name.
pub open spec fn product_eq(a: Product, b: Product) -> bool {
    a.price == b.price && a.name@ == b.name@
}

impl PartialEq for Product {
    fn eq(&self, other: &Product) -> (r: bool) {
        self.price == other.price && self.name == other.name
    }
}

impl vstd::std_specs::cmp::PartialEqSpecImpl for Product {
    open spec fn obeys_eq_spec() -> bool {
        true
    }

    open spec fn eq_spec(&self, other: &Product) -> bool {
        product_eq(*self, *other)
    }
}

/// A product kind together with how many items of it are loaded.
pub struct ProductKindAndQuantity {
    product_kind: Product,
    quantity: usize,
}

impl ProductKindAndQuantity {
    /// The product kind of the entry.
    pub closed spec fn kind(self) -> Product {
        self.product_kind
    }

    /// The number of loaded items of the entry.
    pub closed spec fn qty(self) -> int {
        self.quantity as int
    }

    /// The entry with `extra` more items of the same kind.
    pub closed spec fn spec_add_qty(self, extra: int) -> ProductKindAndQuantity {
        ProductKindAndQuantity {
            product_kind: self.product_kind,
            quantity: (self.quantity + extra) as usize,
        }
    }

    /// The entry with one item fewer.
    pub closed spec fn spec_take_one(self) -> ProductKindAndQuantity {
        ProductKindAndQuantity {
            product_kind: self.product_kind,
            quantity: (self.quantity - 1) as usize,
        }
    }

    pub fn new(kind: Product, quantity: usize) -> (r: ProductKindAndQuantity)
        ensures
            r.kind() == kind,
            r.qty() == quantity,
    {
        ProductKindAndQuantity { product_kind: kind, quantity }
    }
}

/// The number of loaded items over all entries of a stock.
pub open spec fn total_quantity(stock: Seq<ProductKindAndQuantity>) -> int
    decreases stock.len(),
{
    if stock.len() == 0 {
        0
    } else {
        total_quantity(stock.drop_last()) + stock.last().qty()
    }
}

/// Whether the stock has an item of kind `p` left to sell.
pub open spec fn in_stock(stock: Seq<ProductKindAndQuantity>, p: Product) -> bool {
    exists|i: int|
        0 <= i < stock.len() && product_eq(#[trigger] stock[i].kind(), p) && stock[i].qty() > 0
}

/// Whether the stock has an entry of kind `p`, loaded or run out.
pub open spec fn has_kind(stock: Seq<ProductKindAndQuantity>, p: Product) -> bool {
    exists|i: int| 0 <= i < stock.len() && product_eq(#[trigger] stock[i].kind(), p)
}

/// The index of the entry of kind `p`; with distinct kinds it is unique.
pub open spec fn kind_index(stock: Seq<ProductKindAndQuantity>, p: Product) -> int {
    choose|i: int| 0 <= i < stock.len() && product_eq(#[trigger] stock[i].kind(), p)
}

/// Structural soundness of a machine: every entry holds a distinct product
/// kind, the loaded items fit the capacity, and the till's value fits `u32`.
pub open spec fn vm_ok(
    supply: CoinCounts,
    stock: Seq<ProductKindAndQuantity>,
    capacity: int,
) -> bool {
    &&& forall|i: int, j: int|
        0 <= i < j < stock.len() ==> !product_eq(
            #[trigger] stock[i].kind(),
            #[trigger] stock[j].kind(),
        )
    &&& forall|i: int| 0 <= i < stock.len() ==> #[trigger] stock[i].qty() >= 0
    &&& total_quantity(stock) <= capacity
    &&& supply.total() <= u32::MAX
}

/// With distinct kinds, an entry of kind `p` is the only one, so
/// `kind_index` names exactly it.
pub proof fn lemma_kind_index_unique(stock: Seq<ProductKindAndQuantity>, p: Product, i: int)
    requires
        forall|i1: int, j1: int|
            0 <= i1 < j1 < stock.len() ==> !product_eq(
                #[trigger] stock[i1].kind(),
                #[trigger] stock[j1].kind(),
            ),
        0 <= i < stock.len(),
        product_eq(stock[i].kind(), p),
    ensures
        has_kind(stock, p),
        kind_index(stock, p) == i,
{
    assert(has_kind(stock, p));
    let j = kind_index(stock, p);
    assert(0 <= j < stock.len() && product_eq(stock[j].kind(), p));
    if i < j {
        assert(!product_eq(stock[i].kind(), stock[j].kind()));
    } else if j < i {
        assert(!product_eq(stock[j].kind(), stock[i].kind()));
    }
}

/// How the total item count reacts to updating one entry.
pub proof fn lemma_total_quantity_update(
    stock: Seq<ProductKindAndQuantity>,
    i: int,
    e: ProductKindAndQuantity,
)
    requires
        0 <= i < stock.len(),
    ensures
        total_quantity(stock.update(i, e)) == total_quantity(stock) - stock[i].qty() + e.qty(),
    decreases stock.len(),
{
    if i == stock.len() - 1 {
        assert(stock.update(i, e).drop_last() =~= stock.drop_last());
    } else {
        assert(stock.update(i, e).drop_last() =~= stock.drop_last().update(i, e));
        lemma_total_quantity_update(stock.drop_last(), i, e);
    }
}

/// How the total item count reacts to appending an entry.
pub proof fn lemma_total_quantity_push(stock: Seq<ProductKindAndQuantity>, e: ProductKindAndQuantity)
    ensures
        total_quantity(stock.push(e)) == total_quantity(stock) + e.qty(),
{
    assert(stock.push(e).drop_last() =~= stock);
}

/// One step of the cashier's greedy rule: how many coins of `c` go towards
/// a remainder of `rem` — as many as are wanted and held.
pub open spec fn step_used(s: CoinCounts, rem: int, c: Coin) -> int {
    let avail = s.count_or_zero(c);
    let want = rem / (c.spec_value() as int);
    if avail < want {
        avail
    } else {
        want
    }
}

/// The remainder left after the step for `c`.
pub open spec fn step_rem(s: CoinCounts, rem: int, c: Coin) -> int {
    rem - c.spec_value() * step_used(s, rem, c)
}

/// The till after the step for `c`; an untouched denomination keeps its
/// entry, an absent one stays absent.
pub open spec fn step_supply(s: CoinCounts, rem: int, c: Coin) -> CoinCounts {
    if step_used(s, rem, c) > 0 {
        s.spec_insert(c, (s.count_or_zero(c) - step_used(s, rem, c)) as u32)
    } else {
        s
    }
}

/// The till and the remainder after the greedy pass over all denominations,
/// largest first.
pub open spec fn change_outcome(s: CoinCounts, amount: int) -> (CoinCounts, int) {
    let a = (step_supply(s, amount, Coin::Fifty), step_rem(s, amount, Coin::Fifty));
    let b = (step_supply(a.0, a.1, Coin::Twenty), step_rem(a.0, a.1, Coin::Twenty));
    let c = (step_supply(b.0, b.1, Coin::Ten), step_rem(b.0, b.1, Coin::Ten));
    let d = (step_supply(c.0, c.1, Coin::Five), step_rem(c.0, c.1, Coin::Five));
    let e = (step_supply(d.0, d.1, Coin::Two), step_rem(d.0, d.1, Coin::Two));
    (step_supply(e.0, e.1, Coin::One), step_rem(e.0, e.1, Coin::One))
}

/// Exact change can be given if and only if the greedy pass ends at zero.
pub open spec fn can_give_change(s: CoinCounts, amount: int) -> bool {
    change_outcome(s, amount).1 == 0
}

/// One greedy step keeps the remainder and the till value non-negative and
/// moves value from the till to the remainder one for one.
pub proof fn lemma_step(s: CoinCounts, rem: int, c: Coin)
    requires
        0 <= rem,
        0 <= s.total(),
    ensures
        0 <= step_rem(s, rem, c) <= rem,
        step_supply(s, rem, c).total() == s.total() - (rem - step_rem(s, rem, c)),
        0 <= step_supply(s, rem, c).total() <= s.total(),
        forall|c2: Coin|
            c2 != c ==> #[trigger] step_supply(s, rem, c).spec_count(c2) == s.spec_count(c2),
{
    let v = c.spec_value() as int;
    let used = step_used(s, rem, c);
    assert(v * (rem / v) <= rem && 0 <= rem / v) by (nonlinear_arith)
        requires
            1 <= v,
            0 <= rem,
    ;
    assert(0 <= used <= rem / v);
    assert(v * used <= v * (rem / v)) by (nonlinear_arith)
        requires
            1 <= v,
            used <= rem / v,
    ;
    assert(0 <= v * used) by (nonlinear_arith)
        requires
            1 <= v,
            0 <= used,
    ;
    match c {
        Coin::One => {},
        Coin::Two => {},
        Coin::Five => {},
        Coin::Ten => {},
        Coin::Twenty => {},
        Coin::Fifty => {},
    }
}

/// Everything that can go wrong at the machine.
#[derive(Debug, PartialEq, Eq)]
pub enum VendingError {
    ChangeSupplyIsNotEnough(String),
    RunOutOfProduct(String),
    NotEnoughCapacity,
    NotEnoughChange,
    NotEnoughMoney,
    Unknown,
}

/// The till after the customer's coins are put into it, denomination by
/// denomination; only denominations the customer entered are touched.
pub open spec fn load_coin(s: CoinCounts, c: Coin, q: u32) -> CoinCounts {
    match s.spec_count(c) {
        Some(n) => s.spec_insert(c, (n + q) as u32),
        None => s.spec_insert(c, q),
    }
}

/// The till after every denomination of `m` is put into `s`.
pub open spec fn load_all(s: CoinCounts, m: CoinCounts) -> CoinCounts {
    let s1 = if m.ones is Some {
        load_coin(s, Coin::One, m.ones.unwrap())
    } else {
        s
    };
    let s2 = if m.twos is Some {
        load_coin(s1, Coin::Two, m.twos.unwrap())
    } else {
        s1
    };
    let s3 = if m.fives is Some {
        load_coin(s2, Coin::Five, m.fives.unwrap())
    } else {
        s2
    };
    let s4 = if m.tens is Some {
        load_coin(s3, Coin::Ten, m.tens.unwrap())
    } else {
        s3
    };
    let s5 = if m.twenties is Some {
        load_coin(s4, Coin::Twenty, m.twenties.unwrap())
    } else {
        s4
    };
    if m.fifties is Some {
        load_coin(s5, Coin::Fifty, m.fifties.unwrap())
    } else {
        s5
    }
}

/// One denomination's count weighs into the till's value with its face
/// value, so it is bounded by the value.
pub proof fn lemma_count_le_total(s: CoinCounts, c: Coin)
    ensures
        c.spec_value() * s.count_or_zero(c) <= s.total(),
        s.count_or_zero(c) <= c.spec_value() * s.count_or_zero(c),
        s.total() >= 0,
{
    match c {
        Coin::One => {},
        Coin::Two => {},
        Coin::Five => {},
        Coin::Ten => {},
        Coin::Twenty => {},
        Coin::Fifty => {},
    }
}

/// Setting one denomination's entry moves the till's value by the face
/// value times the difference of the counts.
pub proof fn lemma_insert_total(s: CoinCounts, c: Coin, n: u32)
    ensures
        s.spec_insert(c, n).total() == s.total() - c.spec_value() * s.count_or_zero(c)
            + c.spec_value() * n,
        forall|c2: Coin|
            c2 != c ==> #[trigger] s.spec_insert(c, n).spec_count(c2) == s.spec_count(c2),
        s.spec_insert(c, n).spec_count(c) == Some(n),
{
    match c {
        Coin::One => {},
        Coin::Two => {},
        Coin::Five => {},
        Coin::Ten => {},
        Coin::Twenty => {},
        Coin::Fifty => {},
    }
}

/// One exec step of the cashier's greedy rule, mirroring `step_supply` and
/// `step_rem` for the denomination `coin`.
fn greedy_take(till: &mut CoinCounts, coin: Coin, remaining: &mut u32)
    ensures
        *final(till) == step_supply(*old(till), *old(remaining) as int, coin),
        *final(remaining) as int == step_rem(*old(till), *old(remaining) as int, coin),
        0 <= *final(remaining) <= *old(remaining),
        final(till).total() == old(till).total() - (*old(remaining) - *final(remaining)),
        0 <= final(till).total() <= old(till).total(),
{
    proof {
        lemma_step(*till, *remaining as int, coin);
    }
    let value = coin.value();
    let avail = till.get(coin).unwrap_or(0);
    let want = *remaining / value;
    let used = if avail < want {
        avail
    } else {
        want
    };
    proof {
        let v = coin.spec_value() as int;
        let r = *remaining as int;
        assert(v * (used as int) <= v * (r / v)) by (nonlinear_arith)
            requires
                1 <= v,
                0 <= used as int <= r / v,
        ;
        assert(v * (r / v) <= r) by (nonlinear_arith)
            requires
                1 <= v,
                0 <= r,
        ;
    }
    if used > 0 {
        till.insert(coin, avail - used);
    }
    *remaining = *remaining - value * used;
}

/// The contract of a vending machine, stated over three models: the change
/// till, the loaded stock, and the capacity limit.
pub trait VendingMachine: Sized {
    type VError;

    /// The model of the change till.
    spec fn supply(&self) -> CoinCounts;

    /// The model of the loaded stock.
    spec fn stock(&self) -> Seq<ProductKindAndQuantity>;

    /// The capacity limit for loaded items.
    spec fn capacity(&self) -> int;

    /// The machine's name.
    spec fn title(&self) -> Seq<char>;

    /// Pays out exactly `change`, taking coins from the till by the greedy
    /// rule, largest denomination first; fails — and then changes nothing —
    /// exactly when that rule cannot hit the amount with the held coins.
    fn give_change(&mut self, change: &u32) -> (r: Result<(), VendingError>)
        requires
            vm_ok(old(self).supply(), old(self).stock(), old(self).capacity()),
        ensures
            vm_ok(final(self).supply(), final(self).stock(), final(self).capacity()),
            final(self).stock() == old(self).stock(),
            final(self).capacity() == old(self).capacity(),
            final(self).title() == old(self).title(),
            r is Ok <==> can_give_change(old(self).supply(), *change as int),
            r is Ok ==> final(self).supply() == change_outcome(
                old(self).supply(),
                *change as int,
            ).0 && final(self).supply().total() == old(self).supply().total() - *change,
            r is Err ==> *final(self) == *old(self),
            r matches Err(e) ==> (e matches VendingError::ChangeSupplyIsNotEnough(m) && m@
                == "Not enough coins to give exact change"@),
    ;

    /// Hands one item of `product` out of the stock; fails — and then
    /// changes nothing — exactly when none is left.
    fn give_product(&mut self, product: &Product) -> (r: Result<(), Self::VError>)
        requires
            vm_ok(old(self).supply(), old(self).stock(), old(self).capacity()),
        ensures
            vm_ok(final(self).supply(), final(self).stock(), final(self).capacity()),
            final(self).supply() == old(self).supply(),
            final(self).capacity() == old(self).capacity(),
            final(self).title() == old(self).title(),
            in_stock(old(self).stock(), *product) ==> r is Ok && final(self).stock()
                == old(self).stock().update(
                kind_index(old(self).stock(), *product),
                old(self).stock()[kind_index(old(self).stock(), *product)].spec_take_one(),
            ),
            !in_stock(old(self).stock(), *product) ==> r is Err && *final(self) == *old(self),
    ;

    /// Acknowledges the coins handed back for a cancelled purchase and
    /// reports their value; handing the coins over is the caller's part.
    fn money_back(amount: &Money) -> (r: u32)
        requires
            amount.coins.total() <= u32::MAX,
        ensures
            r == amount.coins.total(),
    ;

    /// Sells one item of `product` for the entered `money`: the item and
    /// the change leave the machine, the customer's coins go into the till.
    /// Fails — and then changes nothing — when the product is out of stock,
    /// when too little money was entered, or when the till cannot give the
    /// change; the error says which.
    fn sell_product(&mut self, product: &Product, money: &Money) -> (r: Result<(), VendingError>)
        requires
            vm_ok(old(self).supply(), old(self).stock(), old(self).capacity()),
            old(self).supply().total() + money.coins.total() <= u32::MAX,
        ensures
            vm_ok(final(self).supply(), final(self).stock(), final(self).capacity()),
            final(self).capacity() == old(self).capacity(),
            final(self).title() == old(self).title(),
            !in_stock(old(self).stock(), *product) ==> (r matches Err(e) && e matches
                VendingError::RunOutOfProduct(m) && m@ == "Product '"@ + product.name@
                + "' is out of stock"@) && *final(self) == *old(self),
            in_stock(old(self).stock(), *product) && money.coins.total() < product.price ==> r
                == Err::<(), VendingError>(VendingError::NotEnoughMoney) && *final(self) == *old(self),
            in_stock(old(self).stock(), *product) && money.coins.total() >= product.price
                && !can_give_change(
                old(self).supply(),
                money.coins.total() - product.price,
            ) ==> r == Err::<(), VendingError>(VendingError::NotEnoughChange) && *final(self)
                == *old(self),
            in_stock(old(self).stock(), *product) && money.coins.total() >= product.price
                && can_give_change(old(self).supply(), money.coins.total() - product.price) ==> r
                is Ok && final(self).stock() == old(self).stock().update(
                kind_index(old(self).stock(), *product),
                old(self).stock()[kind_index(old(self).stock(), *product)].spec_take_one(),
            ) && final(self).supply() == load_all(
                change_outcome(old(self).supply(), money.coins.total() - product.price).0,
                money.coins,
            ) && final(self).supply().total() == old(self).supply().total() + product.price,
    ;

    /// Adds `quantity` coins of one denomination to the till.
    fn load_change_supply(&mut self, coin: Coin, quantity: u32)
        requires
            vm_ok(old(self).supply(), old(self).stock(), old(self).capacity()),
            old(self).supply().total() + coin.spec_value() * quantity <= u32::MAX,
        ensures
            vm_ok(final(self).supply(), final(self).stock(), final(self).capacity()),
            final(self).stock() == old(self).stock(),
            final(self).capacity() == old(self).capacity(),
            final(self).title() == old(self).title(),
            final(self).supply() == load_coin(old(self).supply(), coin, quantity),
            final(self).supply().total() == old(self).supply().total() + coin.spec_value()
                * quantity,
    ;

    /// Loads items of one product kind: merged into that kind's entry when
    /// one exists, as a new entry otherwise.  Fails — and then changes
    /// nothing — exactly when the load would exceed the capacity.
    fn load_product(&mut self, product_kind_and_quantity: ProductKindAndQuantity) -> (r: Result<
        (),
        Self::VError,
    >)
        requires
            vm_ok(old(self).supply(), old(self).stock(), old(self).capacity()),
        ensures
            vm_ok(final(self).supply(), final(self).stock(), final(self).capacity()),
            final(self).supply() == old(self).supply(),
            final(self).capacity() == old(self).capacity(),
            final(self).title() == old(self).title(),
            r is Ok <==> total_quantity(old(self).stock()) + product_kind_and_quantity.qty()
                <= old(self).capacity(),
            r is Err ==> *final(self) == *old(self),
            r is Ok && has_kind(old(self).stock(), product_kind_and_quantity.kind()) ==> final(self).stock() == old(self).stock().update(
                kind_index(old(self).stock(), product_kind_and_quantity.kind()),
                old(self).stock()[kind_index(
                    old(self).stock(),
                    product_kind_and_quantity.kind(),
                )].spec_add_qty(product_kind_and_quantity.qty()),
            ),
            r is Ok && !has_kind(old(self).stock(), product_kind_and_quantity.kind()) ==> final(self).stock() == old(self).stock().push(product_kind_and_quantity),
    ;
}

/// An entry's item count is bounded by the whole stock's item count.
pub proof fn lemma_entry_le_total(stock: Seq<ProductKindAndQuantity>, i: int)
    requires
        forall|j: int| 0 <= j < stock.len() ==> #[trigger] stock[j].qty() >= 0,
        0 <= i < stock.len(),
    ensures
        stock[i].qty() <= total_quantity(stock),
        total_quantity(stock) >= 0,
    decreases stock.len(),
{
    if stock.len() > 0 {
        if i == stock.len() - 1 {
            lemma_total_prefix_nonneg(stock.drop_last());
        } else {
            lemma_entry_le_total(stock.drop_last(), i);
        }
    }
}

/// A stock of non-negative entries has a non-negative item count.
pub proof fn lemma_total_prefix_nonneg(stock: Seq<ProductKindAndQuantity>)
    requires
        forall|j: int| 0 <= j < stock.len() ==> #[trigger] stock[j].qty() >= 0,
    ensures
        total_quantity(stock) >= 0,
    decreases stock.len(),
{
    if stock.len() > 0 {
        lemma_total_prefix_nonneg(stock.drop_last());
    }
}

/// A prefix of the stock holds at most as many items as the whole stock.
pub proof fn lemma_total_take(stock: Seq<ProductKindAndQuantity>, i: int)
    requires
        forall|j: int| 0 <= j < stock.len() ==> #[trigger] stock[j].qty() >= 0,
        0 <= i <= stock.len(),
    ensures
        0 <= total_quantity(stock.take(i)) <= total_quantity(stock),
        i < stock.len() ==> total_quantity(stock.take(i + 1)) == total_quantity(stock.take(i))
            + stock[i].qty(),
    decreases stock.len() - i,
{
    assert(forall|j: int| 0 <= j < i ==> stock.take(i)[j] == stock[j]);
    lemma_total_prefix_nonneg(stock.take(i));
    if i < stock.len() {
        assert(stock.take(i + 1).drop_last() =~= stock.take(i));
        lemma_total_take(stock, i + 1);
        if i + 1 == stock.len() {
            assert(stock.take(i + 1) =~= stock);
        }
    } else {
        assert(stock.take(i) =~= stock);
    }
}

/// The greedy pass hands the till from `give_change` to `sell_product`
/// untouched when there is nothing to pay out.
pub proof fn lemma_change_zero(s: CoinCounts)
    ensures
        change_outcome(s, 0).0 == s,
        change_outcome(s, 0).1 == 0,
{
    assert(step_used(s, 0, Coin::Fifty) == 0 && step_rem(s, 0, Coin::Fifty) == 0
        && step_supply(s, 0, Coin::Fifty) == s);
    assert(step_used(s, 0, Coin::Twenty) == 0 && step_rem(s, 0, Coin::Twenty) == 0
        && step_supply(s, 0, Coin::Twenty) == s);
    assert(step_used(s, 0, Coin::Ten) == 0 && step_rem(s, 0, Coin::Ten) == 0 && step_supply(
        s,
        0,
        Coin::Ten,
    ) == s);
    assert(step_used(s, 0, Coin::Five) == 0 && step_rem(s, 0, Coin::Five) == 0 && step_supply(
        s,
        0,
        Coin::Five,
    ) == s);
    assert(step_used(s, 0, Coin::Two) == 0 && step_rem(s, 0, Coin::Two) == 0 && step_supply(
        s,
        0,
        Coin::Two,
    ) == s);
    assert(step_used(s, 0, Coin::One) == 0 && step_rem(s, 0, Coin::One) == 0 && step_supply(
        s,
        0,
        Coin::One,
    ) == s);
}

/// The sweets machine: a named till-and-stock with a capacity limit.
pub struct VMSweets {
    title: String,
    product_capacity: usize,
    change_supply: CoinCounts,
    products: Vec<ProductKindAndQuantity>,
}

impl VMSweets {
    /// A machine with the given name and capacity, empty till, no stock.
    pub fn new(title: &str, product_capacity: usize) -> (vm: VMSweets)
        ensures
            vm_ok(vm.supply(), vm.stock(), vm.capacity()),
            vm.title() == title@,
            vm.capacity() == product_capacity,
            vm.stock() =~= Seq::<ProductKindAndQuantity>::empty(),
            vm.supply().total() == 0,
            forall|c: Coin| #[trigger] vm.supply().spec_count(c) is None,
    {
        VMSweets {
            title: title.to_owned(),
            product_capacity,
            change_supply: CoinCounts::new(),
            products: Vec::new(),
        }
    }

    /// The entry of kind `product` with stock left, if there is one.
    fn find_in_stock(&self, product: &Product) -> (r: Option<usize>)
        ensures
            r matches Some(i) ==> 0 <= i < self.stock().len() && product_eq(
                self.stock()[i as int].kind(),
                *product,
            ) && self.stock()[i as int].qty() > 0,
            r is None ==> !in_stock(self.stock(), *product),
    {
        let mut i: usize = 0;
        while i < self.products.len()
            invariant
                0 <= i <= self.products.len(),
                forall|j: int|
                    0 <= j < i ==> !(product_eq(#[trigger] self.stock()[j].kind(), *product)
                        && self.stock()[j].qty() > 0),
            decreases self.products.len() - i,
        {
            let entry = &self.products[i];
            if entry.product_kind == *product && entry.quantity > 0 {
                return Some(i);
            }
            i += 1;
        }
        None
    }

    /// The entry of kind `product`, loaded or run out, if there is one.
    fn find_kind(&self, product: &Product) -> (r: Option<usize>)
        ensures
            r matches Some(i) ==> 0 <= i < self.stock().len() && product_eq(
                self.stock()[i as int].kind(),
                *product,
            ),
            r is None ==> !has_kind(self.stock(), *product),
    {
        let mut i: usize = 0;
        while i < self.products.len()
            invariant
                0 <= i <= self.products.len(),
                forall|j: int| 0 <= j < i ==> !product_eq(#[trigger] self.stock()[j].kind(), *product),
            decreases self.products.len() - i,
        {
            let entry = &self.products[i];
            if entry.product_kind == *product {
                return Some(i);
            }
            i += 1;
        }
        None
    }

    /// Whether an item of `product` is left to sell.
    pub fn have_product(&self, product: &Product) -> (r: bool)
        ensures
            r == in_stock(self.stock(), *product),
    {
        match self.find_in_stock(product) {
            Some(i) => {
                proof {
                    assert(product_eq(self.stock()[i as int].kind(), *product) && self.stock()[
                        i as int
                    ].qty() > 0);
                }
                true
            },
            None => false,
        }
    }

    /// The value of the coins in the till.
    pub fn calc_change_supply_amount(&self) -> (amount: u32)
        requires
            vm_ok(self.supply(), self.stock(), self.capacity()),
        ensures
            amount == self.supply().total(),
    {
        Money { coins: self.change_supply }.calc_amount()
    }

    /// The capacity limit for loaded items.
    pub fn get_product_capacity(&self) -> (capacity: usize)
        ensures
            capacity == self.capacity(),
    {
        self.product_capacity
    }

    /// The machine's name.
    pub fn get_title(&self) -> (title: &str)
        ensures
            title@ == self.title(),
    {
        self.title.as_str()
    }

    /// Direct access to the till.
    pub fn get_change_supply(&mut self) -> (r: &mut CoinCounts)
        ensures
            *r == old(self).supply(),
            final(self).supply() == *final(r),
            final(self).stock() == old(self).stock(),
            final(self).capacity() == old(self).capacity(),
            final(self).title() == old(self).title(),
    {
        &mut self.change_supply
    }

    /// Direct access to the stock.
    pub fn get_loaded_products(&mut self) -> (r: &mut Vec<ProductKindAndQuantity>)
        ensures
            (*r)@ == old(self).stock(),
            final(self).stock() == (*final(r))@,
            final(self).supply() == old(self).supply(),
            final(self).capacity() == old(self).capacity(),
            final(self).title() == old(self).title(),
    {
        &mut self.products
    }

    /// How many items are loaded over all product kinds.
    pub fn get_amount_of_loaded_products(&self) -> (n: usize)
        requires
            vm_ok(self.supply(), self.stock(), self.capacity()),
        ensures
            n == total_quantity(self.stock()),
    {
        let ghost stock = self.stock();
        let mut res: usize = 0;
        let mut i: usize = 0;
        while i < self.products.len()
            invariant
                vm_ok(self.supply(), stock, self.capacity()),
                stock == self.stock(),
                0 <= i <= self.products.len(),
                res == total_quantity(stock.take(i as int)),
            decreases self.products.len() - i,
        {
            proof {
                lemma_total_take(stock, i as int);
                lemma_total_take(stock, i as int + 1);
            }
            res = res + self.products[i].quantity;
            i += 1;
        }
        proof {
            assert(stock.take(self.products.len() as int) =~= stock);
        }
        res
    }

    /// Puts every denomination of the customer's money into the till.
    fn absorb_coins(&mut self, money: &Money)
        requires
            vm_ok(old(self).supply(), old(self).stock(), old(self).capacity()),
            old(self).supply().total() + money.coins.total() <= u32::MAX,
        ensures
            vm_ok(final(self).supply(), final(self).stock(), final(self).capacity()),
            final(self).stock() == old(self).stock(),
            final(self).capacity() == old(self).capacity(),
            final(self).title() == old(self).title(),
            final(self).supply() == load_all(old(self).supply(), money.coins),
            final(self).supply().total() == old(self).supply().total() + money.coins.total(),
    {
        if let Some(q) = money.coins.get(Coin::One) {
            self.load_change_supply(Coin::One, q);
        }
        if let Some(q) = money.coins.get(Coin::Two) {
            self.load_change_supply(Coin::Two, q);
        }
        if let Some(q) = money.coins.get(Coin::Five) {
            self.load_change_supply(Coin::Five, q);
        }
        if let Some(q) = money.coins.get(Coin::Ten) {
            self.load_change_supply(Coin::Ten, q);
        }
        if let Some(q) = money.coins.get(Coin::Twenty) {
            self.load_change_supply(Coin::Twenty, q);
        }
        if let Some(q) = money.coins.get(Coin::Fifty) {
            self.load_change_supply(Coin::Fifty, q);
        }
    }
}

impl VendingMachine for VMSweets {
    type VError = VendingError;

    closed spec fn supply(&self) -> CoinCounts {
        self.change_supply
    }

    closed spec fn stock(&self) -> Seq<ProductKindAndQuantity> {
        self.products@
    }

    closed spec fn capacity(&self) -> int {
        self.product_capacity as int
    }

    closed spec fn title(&self) -> Seq<char> {
        self.title@
    }

    fn give_change(&mut self, change: &u32) -> (r: Result<(), VendingError>) {
        if *change == 0 {
            proof {
                lemma_change_zero(self.change_supply);
            }
            return Ok(());
        }
        let mut remaining: u32 = *change;
        let mut till: CoinCounts = self.change_supply;
        greedy_take(&mut till, Coin::Fifty, &mut remaining);
        greedy_take(&mut till, Coin::Twenty, &mut remaining);
        greedy_take(&mut till, Coin::Ten, &mut remaining);
        greedy_take(&mut till, Coin::Five, &mut remaining);
        greedy_take(&mut till, Coin::Two, &mut remaining);
        greedy_take(&mut till, Coin::One, &mut remaining);
        if remaining > 0 {
            return Err(
                VendingError::ChangeSupplyIsNotEnough(
                    "Not enough coins to give exact change".to_owned(),
                ),
            );
        }
        self.change_supply = till;
        Ok(())
    }

    fn money_back(amount: &Money) -> (r: u32) {
        amount.calc_amount()
    }

    fn sell_product(&mut self, product: &Product, money: &Money) -> (r: Result<
        (),
        VendingError,
    >) {
        if self.have_product(product) {
            let amount = money.calc_amount();
            if product.price <= amount {
                if product.price == amount {
                    proof {
                        lemma_change_zero(self.change_supply);
                    }
                    self.absorb_coins(money);
                    let _ = self.give_product(product);
                    Ok(())
                } else {
                    let change_to_give_out = amount - product.price;
                    let res = self.give_change(&change_to_give_out);
                    match res {
                        Ok(_) => {
                            self.absorb_coins(money);
                            let _ = self.give_product(product);
                            Ok(())
                        },
                        Err(_) => {
                            let _ = Self::money_back(money);
                            Err(VendingError::NotEnoughChange)
                        },
                    }
                }
            } else {
                let _ = Self::money_back(money);
                Err(VendingError::NotEnoughMoney)
            }
        } else {
            Err(
                VendingError::RunOutOfProduct(
                    "Product '".to_owned().concat(product.name.as_str()).concat(
                        "' is out of stock",
                    ),
                ),
            )
        }
    }

    fn load_change_supply(&mut self, coin: Coin, quantity: u32) {
        proof {
            lemma_count_le_total(self.change_supply, coin);
            let v = coin.spec_value() as int;
            assert(quantity as int <= v * quantity) by (nonlinear_arith)
                requires
                    1 <= v,
            ;
        }
        let current = self.change_supply.get(coin).unwrap_or(0);
        let ghost before = self.change_supply;
        self.change_supply.insert(coin, current + quantity);
        proof {
            lemma_insert_total(before, coin, (current + quantity) as u32);
            let v = coin.spec_value() as int;
            assert(v * ((current + quantity) as int) == v * (current as int) + v * (
            quantity as int)) by (nonlinear_arith);
        }
    }

    fn load_product(&mut self, product_kind_and_quantity: ProductKindAndQuantity) -> (r: Result<
        (),
        VendingError,
    >)
        ensures
            r matches Err(e) ==> e == VendingError::NotEnoughCapacity,
    {
        let ghost stock0 = self.stock();
        let capacity = self.get_product_capacity();
        let total_products = self.get_amount_of_loaded_products();
        if product_kind_and_quantity.quantity <= capacity - total_products {
            match self.find_kind(&product_kind_and_quantity.product_kind) {
                Some(i) => {
                    proof {
                        lemma_kind_index_unique(
                            stock0,
                            product_kind_and_quantity.kind(),
                            i as int,
                        );
                        lemma_entry_le_total(stock0, i as int);
                    }
                    let extra = product_kind_and_quantity.quantity;
                    let e = &mut self.products[i];
                    let q = e.quantity;
                    e.quantity = q + extra;
                    proof {
                        let updated = stock0[i as int].spec_add_qty(extra as int);
                        assert(self.stock() =~= stock0.update(i as int, updated));
                        lemma_total_quantity_update(stock0, i as int, updated);
                        assert forall|i1: int, j1: int|
                            0 <= i1 < j1 < self.stock().len() implies !product_eq(
                            #[trigger] self.stock()[i1].kind(),
                            #[trigger] self.stock()[j1].kind(),
                        ) by {
                            assert(stock0[i1].kind() == self.stock()[i1].kind());
                            assert(stock0[j1].kind() == self.stock()[j1].kind());
                        }
                    }
                    Ok(())
                },
                None => {
                    self.products.push(product_kind_and_quantity);
                    proof {
                        lemma_total_quantity_push(
                            stock0,
                            self.stock()[stock0.len() as int],
                        );
                        assert(self.stock() =~= stock0.push(self.stock()[stock0.len() as int]));
                    }
                    Ok(())
                },
            }
        } else {
            Err(VendingError::NotEnoughCapacity)
        }
    }

    fn give_product(&mut self, product: &Product) -> (r: Result<(), VendingError>)
        ensures
            r matches Err(e) ==> e == VendingError::NotEnoughCapacity,
    {
        let ghost stock0 = self.stock();
        match self.find_in_stock(product) {
            Some(i) => {
                proof {
                    lemma_kind_index_unique(stock0, *product, i as int);
                    assert(in_stock(stock0, *product));
                    lemma_entry_le_total(stock0, i as int);
                }
                let e = &mut self.products[i];
                let q = e.quantity;
                e.quantity = q - 1;
                proof {
                    let updated = stock0[i as int].spec_take_one();
                    assert(self.stock() =~= stock0.update(i as int, updated));
                    lemma_total_quantity_update(stock0, i as int, updated);
                    assert forall|i1: int, j1: int|
                        0 <= i1 < j1 < self.stock().len() implies !product_eq(
                        #[trigger] self.stock()[i1].kind(),
                        #[trigger] self.stock()[j1].kind(),
                    ) by {
                        assert(stock0[i1].kind() == self.stock()[i1].kind());
                        assert(stock0[j1].kind() == self.stock()[j1].kind());
                    }
                }
                Ok(())
            },
            None => Err(VendingError::NotEnoughCapacity),
        }
    }
}

} // verus!



