use vstd::prelude::*;

use crate::coin::Coin;
use crate::msg::{BankSend, Response};

verus! {

/// Balances keyed by (address, denomination); a missing key holds nothing.
pub type Balances = Map<(Seq<char>, Seq<char>), u128>;

/// Why a transfer was refused. A refused transfer moves nothing.
#[derive(Debug, PartialEq, Eq)]
pub enum BankError {
    /// The sender holds less than asked of this denomination.
    InsufficientFunds { denom: String },
    /// The receiver's balance would pass `u128::MAX`.
    Overflow,
}

/// What `addr` holds of `denom`.
pub open spec fn amount_in(m: Balances, addr: Seq<char>, denom: Seq<char>) -> u128 {
    if m.contains_key((addr, denom)) {
        m[(addr, denom)]
    } else {
        0
    }
}

/// `m` after `coin` moves from `from` to `to`.
pub open spec fn move_coin(m: Balances, from: Seq<char>, to: Seq<char>, coin: Coin) -> Result<
    Balances,
    BankError,
> {
    let have = amount_in(m, from, coin.denom@);
    if have < coin.amount {
        Err(BankError::InsufficientFunds { denom: coin.denom })
    } else {
        let m1 = m.insert((from, coin.denom@), (have - coin.amount) as u128);
        let got = amount_in(m1, to, coin.denom@);
        if got + coin.amount > u128::MAX {
            Err(BankError::Overflow)
        } else {
            Ok(m1.insert((to, coin.denom@), (got + coin.amount) as u128))
        }
    }
}

/// `m` after each of `coins` moves from `from` to `to`, in order; the first
/// refusal refuses the whole.
pub open spec fn move_all(m: Balances, from: Seq<char>, to: Seq<char>, coins: Seq<Coin>) -> Result<
    Balances,
    BankError,
>
    decreases coins.len(),
{
    if coins.len() == 0 {
        Ok(m)
    } else {
        match move_all(m, from, to, coins.drop_last()) {
            Ok(m1) => move_coin(m1, from, to, coins.last()),
            Err(e) => Err(e),
        }
    }
}

/// `m` after each of `sends` is paid out of `from`, in order; the first
/// refusal refuses the whole.
pub open spec fn apply_sends(m: Balances, from: Seq<char>, sends: Seq<BankSend>) -> Result<
    Balances,
    BankError,
>
    decreases sends.len(),
{
    if sends.len() == 0 {
        Ok(m)
    } else {
        match apply_sends(m, from, sends.drop_last()) {
            Ok(m1) => move_all(m1, from, sends.last().to_address@, sends.last().amount@),
            Err(e) => Err(e),
        }
    }
}

/// One account's holding of one denomination.
struct Holding {
    address: String,
    denom: String,
    amount: u128,
}

impl Clone for Holding {
    fn clone(&self) -> (r: Holding)
        ensures
            r == *self,
    {
        Holding { address: self.address.clone(), denom: self.denom.clone(), amount: self.amount }
    }
}

/// The (address, denomination) under which a holding is kept.
spec fn key_of(h: Holding) -> (Seq<char>, Seq<char>) {
    (h.address@, h.denom@)
}

spec fn holds(s: Seq<Holding>, k: (Seq<char>, Seq<char>)) -> bool {
    exists|i: int| 0 <= i < s.len() && key_of(s[i]) == k
}

spec fn unique_keys(s: Seq<Holding>) -> bool {
    forall|i: int, j: int|
        0 <= i < s.len() && 0 <= j < s.len() && i != j ==> key_of(s[i]) != key_of(s[j])
}

/// What a list of holdings with distinct keys says each key holds.
spec fn holdings_map(s: Seq<Holding>) -> Balances {
    Map::new(
        |k: (Seq<char>, Seq<char>)| holds(s, k),
        |k: (Seq<char>, Seq<char>)|
            s[choose|i: int| 0 <= i < s.len() && key_of(s[i]) == k].amount,
    )
}

proof fn lemma_lookup(s: Seq<Holding>, i: int)
    requires
        unique_keys(s),
        0 <= i < s.len(),
    ensures
        holdings_map(s).contains_key(key_of(s[i])),
        holdings_map(s)[key_of(s[i])] == s[i].amount,
{
    let k = key_of(s[i]);
    assert(holds(s, k));
    let j = choose|j: int| 0 <= j < s.len() && key_of(s[j]) == k;
    assert(j == i);
}

proof fn lemma_update(s: Seq<Holding>, i: int, h: Holding)
    requires
        unique_keys(s),
        0 <= i < s.len(),
        key_of(h) == key_of(s[i]),
    ensures
        unique_keys(s.update(i, h)),
        holdings_map(s.update(i, h)) == holdings_map(s).insert(key_of(h), h.amount),
{
    let t = s.update(i, h);
    assert(unique_keys(t));
    let a = holdings_map(t);
    let b = holdings_map(s).insert(key_of(h), h.amount);
    assert forall|k: (Seq<char>, Seq<char>)| #[trigger] a.contains_key(k) == b.contains_key(k) by {
        if holds(t, k) {
            let j = choose|j: int| 0 <= j < t.len() && key_of(t[j]) == k;
            if j != i {
                assert(key_of(s[j]) == k);
            }
        }
        if holds(s, k) && k != key_of(h) {
            let j = choose|j: int| 0 <= j < s.len() && key_of(s[j]) == k;
            assert(key_of(t[j]) == k);
        }
        if k == key_of(h) {
            assert(key_of(t[i]) == k);
        }
    }
    assert forall|k: (Seq<char>, Seq<char>)| a.contains_key(k) implies #[trigger] a[k] == b[k] by {
        let j = choose|j: int| 0 <= j < t.len() && key_of(t[j]) == k;
        lemma_lookup(t, j);
        if j != i {
            lemma_lookup(s, j);
        }
    }
    assert(a =~= b);
}

proof fn lemma_push(s: Seq<Holding>, h: Holding)
    requires
        unique_keys(s),
        !holds(s, key_of(h)),
    ensures
        unique_keys(s.push(h)),
        holdings_map(s.push(h)) == holdings_map(s).insert(key_of(h), h.amount),
{
    let t = s.push(h);
    assert forall|i: int, j: int|
        0 <= i < t.len() && 0 <= j < t.len() && i != j implies key_of(t[i]) != key_of(
            t[j],
        ) by {
        if i == s.len() as int {
            assert(key_of(s[j]) != key_of(h));
        } else if j == s.len() as int {
            assert(key_of(s[i]) != key_of(h));
        } else {
            assert(t[i] == s[i] && t[j] == s[j]);
        }
    }
    let a = holdings_map(t);
    let b = holdings_map(s).insert(key_of(h), h.amount);
    assert forall|k: (Seq<char>, Seq<char>)| #[trigger] a.contains_key(k) == b.contains_key(k) by {
        if holds(t, k) {
            let j = choose|j: int| 0 <= j < t.len() && key_of(t[j]) == k;
            if j != s.len() as int {
                assert(key_of(s[j]) == k);
            }
        }
        if holds(s, k) {
            let j = choose|j: int| 0 <= j < s.len() && key_of(s[j]) == k;
            assert(key_of(t[j]) == k);
        }
        if k == key_of(h) {
            assert(key_of(t[s.len() as int]) == k);
        }
    }
    assert forall|k: (Seq<char>, Seq<char>)| a.contains_key(k) implies #[trigger] a[k] == b[k] by {
        let j = choose|j: int| 0 <= j < t.len() && key_of(t[j]) == k;
        lemma_lookup(t, j);
        if j != s.len() as int {
            assert(t[j] == s[j]);
            lemma_lookup(s, j);
        }
    }
    assert(a =~= b);
}

proof fn lemma_move_all_err_extends(
    m: Balances,
    from: Seq<char>,
    to: Seq<char>,
    coins: Seq<Coin>,
    n: int,
)
    requires
        0 <= n <= coins.len(),
        move_all(m, from, to, coins.take(n)) is Err,
    ensures
        move_all(m, from, to, coins) == move_all(m, from, to, coins.take(n)),
    decreases coins.len() - n,
{
    if n < coins.len() {
        assert(coins.take(n + 1).drop_last() =~= coins.take(n));
        lemma_move_all_err_extends(m, from, to, coins, n + 1);
    } else {
        assert(coins.take(n) =~= coins);
    }
}

proof fn lemma_apply_sends_err_extends(m: Balances, from: Seq<char>, sends: Seq<BankSend>, n: int)
    requires
        0 <= n <= sends.len(),
        apply_sends(m, from, sends.take(n)) is Err,
    ensures
        apply_sends(m, from, sends) == apply_sends(m, from, sends.take(n)),
    decreases sends.len() - n,
{
    if n < sends.len() {
        assert(sends.take(n + 1).drop_last() =~= sends.take(n));
        lemma_apply_sends_err_extends(m, from, sends, n + 1);
    } else {
        assert(sends.take(n) =~= sends);
    }
}

/// The balances of every account, which applies the transfers that the
/// contract's responses ask for.
pub struct Ledger {
    holdings: Vec<Holding>,
}

impl View for Ledger {
    type V = Balances;

    closed spec fn view(&self) -> Balances {
        holdings_map(self.holdings@)
    }
}

impl Ledger {
    /// Each (address, denomination) is held at most once.
    pub closed spec fn wf(&self) -> bool {
        unique_keys(self.holdings@)
    }

    /// No account holds anything.
    pub fn new() -> (r: Ledger)
        ensures
            r.wf(),
            r@ == Balances::empty(),
    {
        let r = Ledger { holdings: Vec::new() };
        assert(r@ =~= Balances::empty());
        r
    }

    fn find(&self, addr: &String, denom: &String) -> (r: Option<usize>)
        ensures
            r is Some ==> r->0 < self.holdings@.len() && key_of(self.holdings@[r->0 as int]) == (
            addr@, denom@),
            r is None ==> !holds(self.holdings@, (addr@, denom@)),
    {
        let mut i: usize = 0;
        while i < self.holdings.len()
            invariant
                0 <= i <= self.holdings@.len(),
                forall|j: int| 0 <= j < i ==> key_of(self.holdings@[j]) != (addr@, denom@),
            decreases self.holdings.len() - i,
        {
            if self.holdings[i].address == *addr && self.holdings[i].denom == *denom {
                return Some(i);
            }
            i += 1;
        }
        None
    }

    /// What `addr` holds of `denom`.
    pub fn amount(&self, addr: &String, denom: &String) -> (r: u128)
        requires
            self.wf(),
        ensures
            r == amount_in(self@, addr@, denom@),
    {
        match self.find(addr, denom) {
            Some(i) => {
                proof {
                    lemma_lookup(self.holdings@, i as int);
                }
                self.holdings[i].amount
            },
            None => 0,
        }
    }

    fn set_amount(&mut self, addr: &String, denom: &String, amount: u128)
        requires
            old(self).wf(),
        ensures
            final(self).wf(),
            final(self)@ == old(self)@.insert((addr@, denom@), amount),
    {
        let h = Holding { address: addr.clone(), denom: denom.clone(), amount };
        match self.find(addr, denom) {
            Some(i) => {
                proof {
                    lemma_update(self.holdings@, i as int, h);
                }
                self.holdings.set(i, h);
            },
            None => {
                proof {
                    lemma_push(self.holdings@, h);
                }
                self.holdings.push(h);
            },
        }
    }

    /// Credits `coin` to `addr`, as the host does when it creates funds.
    pub fn mint(&mut self, addr: &String, coin: &Coin) -> (r: Result<(), BankError>)
        requires
            old(self).wf(),
        ensures
            final(self).wf(),
            amount_in(old(self)@, addr@, coin.denom@) + coin.amount <= u128::MAX ==> r is Ok
                && final(self)@ == old(self)@.insert(
                (addr@, coin.denom@),
                (amount_in(old(self)@, addr@, coin.denom@) + coin.amount) as u128,
            ),
            amount_in(old(self)@, addr@, coin.denom@) + coin.amount > u128::MAX ==> r == Err::<
                (),
                BankError,
            >(BankError::Overflow) && final(self)@ == old(self)@,
    {
        let have = self.amount(addr, &coin.denom);
        if have > u128::MAX - coin.amount {
            return Err(BankError::Overflow);
        }
        self.set_amount(addr, &coin.denom, have + coin.amount);
        Ok(())
    }

    fn move_one(&mut self, from: &String, to: &String, coin: &Coin) -> (r: Result<(), BankError>)
        requires
            old(self).wf(),
        ensures
            final(self).wf(),
            match move_coin(old(self)@, from@, to@, *coin) {
                Ok(m) => r is Ok && final(self)@ == m,
                Err(e) => r == Err::<(), BankError>(e),
            },
    {
        let have = self.amount(from, &coin.denom);
        if have < coin.amount {
            return Err(BankError::InsufficientFunds { denom: coin.denom.clone() });
        }
        let got = if *from == *to {
            have - coin.amount
        } else {
            self.amount(to, &coin.denom)
        };
        if got > u128::MAX - coin.amount {
            return Err(BankError::Overflow);
        }
        self.set_amount(from, &coin.denom, have - coin.amount);
        self.set_amount(to, &coin.denom, got + coin.amount);
        Ok(())
    }

    fn duplicate(&self) -> (r: Ledger)
        requires
            self.wf(),
        ensures
            r.wf(),
            r@ == self@,
    {
        let mut v: Vec<Holding> = Vec::new();
        let mut i: usize = 0;
        while i < self.holdings.len()
            invariant
                0 <= i <= self.holdings@.len(),
                v@ == self.holdings@.take(i as int),
            decreases self.holdings.len() - i,
        {
            v.push(self.holdings[i].clone());
            i += 1;
            assert(v@ =~= self.holdings@.take(i as int));
        }
        assert(v@ =~= self.holdings@);
        Ledger { holdings: v }
    }
    /// Moves each of `coins` from `from` to `to`, all or nothing.
    pub fn transfer(&mut self, from: &String, to: &String, coins: &Vec<Coin>) -> (r: Result<
        (),
        BankError,
    >)
        requires
            old(self).wf(),
        ensures
            final(self).wf(),
            match move_all(old(self)@, from@, to@, coins@) {
                Ok(m) => r is Ok && final(self)@ == m,
                Err(e) => r == Err::<(), BankError>(e) && final(self)@ == old(self)@,
            },
    {
        let mut next = self.duplicate();
        let mut i: usize = 0;
        assert(coins@.take(0) =~= Seq::<Coin>::empty());
        while i < coins.len()
            invariant
                0 <= i <= coins@.len(),
                self.wf(),
                next.wf(),
                move_all(self@, from@, to@, coins@.take(i as int)) == Ok::<Balances, BankError>(
                    next@,
                ),
            decreases coins.len() - i,
        {
            assert(coins@.take(i + 1).drop_last() =~= coins@.take(i as int));
            assert(coins@.take(i + 1).last() == coins@[i as int]);
            let step = next.move_one(from, to, &coins[i]);
            if step.is_err() {
                proof {
                    lemma_move_all_err_extends(self@, from@, to@, coins@, i + 1);
                }
                return step;
            }
            i += 1;
        }
        assert(coins@.take(coins@.len() as int) =~= coins@);
        *self = next;
        Ok(())
    }

    /// Performs the transfers of `resp`, paid out of `from`, all or nothing.
    pub fn apply(&mut self, from: &String, resp: &Response) -> (r: Result<(), BankError>)
        requires
            old(self).wf(),
        ensures
            final(self).wf(),
            match apply_sends(old(self)@, from@, resp.messages@) {
                Ok(m) => r is Ok && final(self)@ == m,
                Err(e) => r == Err::<(), BankError>(e) && final(self)@ == old(self)@,
            },
    {
        let sends = &resp.messages;
        let mut next = self.duplicate();
        let mut i: usize = 0;
        assert(sends@.take(0) =~= Seq::<BankSend>::empty());
        while i < sends.len()
            invariant
                0 <= i <= sends@.len(),
                sends@ == resp.messages@,
                self.wf(),
                next.wf(),
                apply_sends(self@, from@, sends@.take(i as int)) == Ok::<Balances, BankError>(
                    next@,
                ),
            decreases sends.len() - i,
        {
            assert(sends@.take(i + 1).drop_last() =~= sends@.take(i as int));
            assert(sends@.take(i + 1).last() == sends@[i as int]);
            let step = next.transfer(from, &sends[i].to_address, &sends[i].amount);
            if step.is_err() {
                proof {
                    lemma_apply_sends_err_extends(self@, from@, sends@, i + 1);
                }
                return step;
            }
            i += 1;
        }
        assert(sends@.take(sends@.len() as int) =~= sends@);
        *self = next;
        Ok(())
    }

    /// Everything that `addr` holds: each denomination once, with its
    /// positive amount.
    pub fn all_balances(&self, addr: &String) -> (r: Vec<Coin>)
        requires
            self.wf(),
        ensures
            forall|i: int|
                0 <= i < r@.len() ==> #[trigger] r@[i].amount > 0 && r@[i].amount == amount_in(
                    self@,
                    addr@,
                    r@[i].denom@,
                ),
            forall|i: int, j: int|
                0 <= i < r@.len() && 0 <= j < r@.len() && i != j ==> r@[i].denom@ != r@[j].denom@,
            forall|d: Seq<char>|
                #[trigger] amount_in(self@, addr@, d) > 0 ==> exists|i: int|
                    0 <= i < r@.len() && r@[i].denom@ == d,
    {
        let s = &self.holdings;
        let mut r: Vec<Coin> = Vec::new();
        let ghost mut idx: Seq<int> = Seq::empty();
        let mut i: usize = 0;
        while i < s.len()
            invariant
                0 <= i <= s@.len(),
                unique_keys(s@),
                idx.len() == r@.len(),
                forall|k: int|
                    0 <= k < r@.len() ==> 0 <= #[trigger] idx[k] < i && key_of(s@[idx[k]]) == (
                    addr@, r@[k].denom@) && s@[idx[k]].amount == r@[k].amount && r@[k].amount > 0,
                forall|k1: int, k2: int| 0 <= k1 < k2 < r@.len() ==> idx[k1] < idx[k2],
                forall|j: int|
                    0 <= j < i && s@[j].address@ == addr@ && s@[j].amount > 0 ==> exists|k: int|
                        0 <= k < r@.len() && idx[k] == j,
            decreases s.len() - i,
        {
            if s[i].address == *addr && s[i].amount > 0 {
                let ghost old_idx = idx;
                let ghost old_len = r@.len();
                r.push(Coin { denom: s[i].denom.clone(), amount: s[i].amount });
                proof {
                    idx = idx.push(i as int);
                    assert forall|j: int|
                        0 <= j < i + 1 && s@[j].address@ == addr@ && s@[j].amount > 0 implies exists|
                            k: int,
                        | 0 <= k < r@.len() && idx[k] == j by {
                        if j == i {
                            assert(idx[r@.len() - 1] == j);
                        } else {
                            let k = choose|k: int| 0 <= k < old_len && old_idx[k] == j;
                            assert(idx[k] == j);
                        }
                    }
                }
            }
            i += 1;
        }
        proof {
            assert forall|k: int| 0 <= k < r@.len() implies #[trigger] r@[k].amount > 0
                && r@[k].amount == amount_in(self@, addr@, r@[k].denom@) by {
                lemma_lookup(s@, idx[k]);
            }
            assert forall|k1: int, k2: int|
                0 <= k1 < r@.len() && 0 <= k2 < r@.len() && k1 != k2 implies r@[k1].denom@
                != r@[k2].denom@ by {
                if k1 < k2 {
                    assert(idx[k1] < idx[k2]);
                } else {
                    assert(idx[k2] < idx[k1]);
                }
            }
            assert forall|d: Seq<char>| #[trigger] amount_in(self@, addr@, d) > 0 implies exists|
                i: int,
            | 0 <= i < r@.len() && r@[i].denom@ == d by {
                let j = choose|j: int| 0 <= j < s@.len() && key_of(s@[j]) == (addr@, d);
                lemma_lookup(s@, j);
                let k = choose|k: int| 0 <= k < r@.len() && idx[k] == j;
                assert(r@[k].denom@ == d);
            }
        }
        r
    }
}

} // verus!
