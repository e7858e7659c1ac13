//! The vault driven through its opcodes, every state asserted against an
//! independent integer replica.

use permafrost::{AlkaneId, AlkaneTransfer, CallResponse, Context, Permafrost};
use permafrost::{PermafrostMessage, VaultError};

const PENALTY_BPS: u128 = 1000;
const BPS: u128 = 10_000;
const DEAD_SHARES: u128 = 1000;
const DRIP_INTERVAL: u64 = 144;
const YEAR_DAYS: u128 = 365;
const FP: u128 = 1 << 64;
const LOGO: &[u8] = b"<svg xmlns=\"http://www.w3.org/2000/svg\"/>";

const OP_INIT: u128 = 0;
const OP_DEPOSIT: u128 = 1;
const OP_WITHDRAW: u128 = 2;
const OP_DONATE_POT: u128 = 3;
const OP_DONATE_BOOST: u128 = 4;
const OP_GET_NAME: u128 = 99;
const OP_GET_SYMBOL: u128 = 100;
const OP_PENALTY_BPS: u128 = 103;
const OP_QUOTE_DEPOSIT: u128 = 105;
const OP_QUOTE_WITHDRAW: u128 = 106;
const OP_GET_POT: u128 = 107;
const OP_GET_STATE: u128 = 108;
const OP_GET_POT_ANCHOR: u128 = 109;

const VAULT_NAME: &str = "FROST-BTCUSD";
const VAULT_SYMBOL: &str = "fBTCUSD";

fn underlying_id() -> AlkaneId {
    AlkaneId { block: 4, tx: 0xa10 }
}

fn vault_id() -> AlkaneId {
    AlkaneId { block: 4, tx: 0xf057 }
}

// The replica.

fn mul_fp_ceil(a: u128, b: u128) -> u128 {
    (a.checked_mul(b).expect("fp mul overflow") + FP - 1) / FP
}

fn pow_decay_fp(mut e: u64, periods: u128) -> u128 {
    let mut base = ((periods - 1) * FP + (periods - 1)) / periods;
    let mut result = FP;
    while e > 0 {
        if e & 1 == 1 {
            result = mul_fp_ceil(result, base);
        }
        base = mul_fp_ceil(base, base);
        e >>= 1;
    }
    result
}

fn pot_after_release(b: u128, e: u64, periods: u128) -> u128 {
    if b == 0 || e == 0 {
        return b;
    }
    let pow = pow_decay_fp(e, periods);
    let pot = ((b.checked_mul(pow).expect("pot mul overflow") + FP - 1) / FP).min(b);
    assert_eq!(permafrost::pot_after_release(b, e, periods), pot);
    pot
}

struct Mirror {
    l: u128,
    b: u128,
    s: u128,
    h0: u64,
}

impl Mirror {
    fn new(anchor: u64) -> Self {
        Mirror { l: 0, b: 0, s: 0, h0: anchor }
    }
    fn active(&self) -> u128 {
        self.l - self.b
    }
    fn release(&mut self, h: u64) {
        let e = h.saturating_sub(self.h0) / DRIP_INTERVAL;
        if self.s > DEAD_SHARES {
            self.b = pot_after_release(self.b, e, YEAR_DAYS);
        }
        self.h0 += e * DRIP_INTERVAL;
    }
    fn deposit(&mut self, h: u64, d: u128) -> u128 {
        self.release(h);
        let (minted, delta) = if self.s == 0 {
            (d - DEAD_SHARES, d)
        } else {
            let m = d * self.s / self.active();
            (m, m)
        };
        self.s += delta;
        self.l += d;
        minted
    }
    fn withdraw(&mut self, h: u64, shares: u128) -> (u128, u128) {
        self.release(h);
        let w = shares * self.active() / self.s;
        let tithe = (w * PENALTY_BPS + (BPS - 1)) / BPS;
        let payout = w - tithe;
        self.s -= shares;
        self.l -= payout;
        self.b += tithe;
        (payout, tithe)
    }
    fn donate_pot(&mut self, h: u64, d: u128) {
        self.release(h);
        self.l += d;
        self.b += d;
    }
    fn donate_boost(&mut self, h: u64, d: u128) {
        self.release(h);
        self.l += d;
    }
}

// The vault under test.

fn call(
    vault: &mut Permafrost,
    height: u64,
    cellpack: Vec<u128>,
    incoming: Vec<AlkaneTransfer>,
) -> Result<CallResponse, VaultError> {
    let inputs = cellpack[1..].to_vec();
    let message = PermafrostMessage::from_opcode(cellpack[0], &inputs).expect("a known opcode");
    let context = Context { myself: vault_id(), incoming_alkanes: incoming, height };
    vault.dispatch(message, &context, LOGO)
}

fn underlying(value: u128) -> Vec<AlkaneTransfer> {
    vec![AlkaneTransfer { id: underlying_id(), value }]
}

fn shares(value: u128) -> Vec<AlkaneTransfer> {
    vec![AlkaneTransfer { id: vault_id(), value }]
}

fn word(data: &[u8], i: usize) -> u128 {
    let mut w = [0u8; 16];
    w.copy_from_slice(&data[i * 16..(i + 1) * 16]);
    u128::from_le_bytes(w)
}

fn view_u128(vault: &mut Permafrost, height: u64, cellpack: Vec<u128>) -> u128 {
    let data = call(vault, height, cellpack, vec![]).unwrap().data;
    assert_eq!(data.len(), 16);
    word(&data, 0)
}

fn view_u128_pair(vault: &mut Permafrost, height: u64, cellpack: Vec<u128>) -> (u128, u128) {
    let data = call(vault, height, cellpack, vec![]).unwrap().data;
    assert_eq!(data.len(), 32);
    (word(&data, 0), word(&data, 1))
}

fn view_string(vault: &mut Permafrost, height: u64, opcode: u128) -> String {
    String::from_utf8(call(vault, height, vec![opcode], vec![]).unwrap().data).unwrap()
}

fn view_state(vault: &mut Permafrost, height: u64) -> (u128, u128, u128) {
    let data = call(vault, height, vec![OP_GET_STATE], vec![]).unwrap().data;
    assert_eq!(data.len(), 48);
    (word(&data, 0), word(&data, 1), word(&data, 2))
}

fn assert_state(tag: &str, vault: &mut Permafrost, height: u64, m: &Mirror) {
    assert_eq!(view_state(vault, height), (m.l, m.b, m.s), "{}", tag);
    assert_eq!(vault.pot_anchor(), m.h0, "{}", tag);
}

/// The deposit's shares.
fn deposit(vault: &mut Permafrost, height: u64, amount: u128) -> u128 {
    let response = call(vault, height, vec![OP_DEPOSIT], underlying(amount)).unwrap();
    let minted = word(&response.data, 0);
    assert_eq!(response.alkanes, shares(minted));
    minted
}

/// The exit's payout.
fn withdraw(vault: &mut Permafrost, height: u64, amount: u128) -> u128 {
    let response = call(vault, height, vec![OP_WITHDRAW], shares(amount)).unwrap();
    let payout = word(&response.data, 0);
    assert_eq!(response.alkanes, underlying(payout));
    payout
}

fn pack_str(s: &str) -> u128 {
    let bytes = s.as_bytes();
    assert!(bytes.len() <= 16, "packed strings fit 16 bytes");
    let mut b = [0u8; 16];
    b[..bytes.len()].copy_from_slice(bytes);
    u128::from_le_bytes(b)
}

/// A vault set up at `height`.
fn setup_vault(height: u64) -> Permafrost {
    let mut vault = Permafrost::default();
    let h = height;
    call(
        &mut vault,
        h,
        vec![
            OP_INIT,
            underlying_id().block,
            underlying_id().tx,
            PENALTY_BPS,
            pack_str(VAULT_NAME),
            pack_str(VAULT_SYMBOL),
            DRIP_INTERVAL as u128,
            YEAR_DAYS,
        ],
        vec![],
    )
    .unwrap();
    assert_eq!(view_u128(&mut vault, h, vec![OP_PENALTY_BPS]), PENALTY_BPS);
    assert_eq!(view_string(&mut vault, h, OP_GET_NAME), VAULT_NAME);
    assert_eq!(view_string(&mut vault, h, OP_GET_SYMBOL), VAULT_SYMBOL);
    assert_eq!(view_u128(&mut vault, h, vec![110]), DRIP_INTERVAL as u128);
    assert_eq!(view_u128(&mut vault, h, vec![111]), YEAR_DAYS);
    let logo = call(&mut vault, h, vec![1000], vec![]).unwrap();
    assert_eq!(logo.data, LOGO.to_vec());
    vault
}

#[test]
fn permafrost_neutrality_and_flat_price() {
    let mut h: u64 = 890_002;
    let mut v = setup_vault(h - 1);
    let mut m = Mirror::new(h - 1);
    h += 1;

    // Genesis: 100e9 units mint 100e9 shares, the dead ones included.
    let out = deposit(&mut v, h, 100_000_000_000);
    let minted = m.deposit(h, 100_000_000_000);
    h += 1;
    assert_eq!(minted, 100_000_000_000 - DEAD_SHARES);
    assert_eq!(out, minted);
    assert_state("genesis", &mut v, h, &m);

    // A deposit at rate one is neutral.
    let out = deposit(&mut v, h, 36_500_000_000);
    let minted = m.deposit(h, 36_500_000_000);
    h += 1;
    assert_eq!(minted, 36_500_000_000, "1:1 mint at rate 1");
    assert_eq!(out, minted);
    assert_state("deposit", &mut v, h, &m);

    // An exit pays its tithe into the pot, not into the rate.
    let (active_before, s_before) = (m.active(), m.s);
    let out = withdraw(&mut v, h, 36_500_000_000);
    let (payout, tithe) = m.withdraw(h, 36_500_000_000);
    h += 1;
    assert_eq!((payout, tithe), (32_850_000_000, 3_650_000_000));
    assert_eq!(out, payout);
    assert_state("exit", &mut v, h, &m);
    assert_eq!((m.l, m.b, m.s), (103_650_000_000, 3_650_000_000, 100_000_000_000));
    assert_eq!(m.active() * s_before, active_before * m.s);

    // A deposit after a tithe still mints at rate one: the pot is excluded.
    deposit(&mut v, h, 26_000_000_000);
    let minted = m.deposit(h, 26_000_000_000);
    h += 1;
    assert_eq!(minted, 26_000_000_000);
    assert_state("deposit2", &mut v, h, &m);

    // The flat price: the lump quote is the sum of the slices.
    let (q_payout, q_tithe) =
        view_u128_pair(&mut v, h, vec![OP_QUOTE_WITHDRAW, 26_000_000_000]);
    assert_eq!((q_payout, q_tithe), (23_400_000_000, 2_600_000_000));
    h += 1;
    let mut sliced_payout = 0u128;
    let mut sliced_tithe = 0u128;
    for _ in 0..2 {
        let out = withdraw(&mut v, h, 13_000_000_000);
        let (p, t) = m.withdraw(h, 13_000_000_000);
        h += 1;
        assert_eq!(out, p);
        sliced_payout += p;
        sliced_tithe += t;
    }
    assert_eq!((sliced_payout, sliced_tithe), (q_payout, q_tithe));
    assert_state("sliced", &mut v, h, &m);
    assert_eq!((m.l, m.b, m.s), (106_250_000_000, 6_250_000_000, 100_000_000_000));
}

#[test]
fn permafrost_drip_and_last_exit() {
    let mut h: u64 = 891_002;
    let anchor = h - 1;
    let mut v = setup_vault(anchor);
    let mut m = Mirror::new(anchor);
    h += 1;

    deposit(&mut v, h, 100_000_000_000);
    let d1_minted = m.deposit(h, 100_000_000_000);
    h += 1;
    deposit(&mut v, h, 36_500_000_000);
    m.deposit(h, 36_500_000_000);
    h += 1;
    withdraw(&mut v, h, 36_500_000_000);
    m.withdraw(h, 36_500_000_000);
    h += 1;
    assert_state("pot filled", &mut v, h, &m);
    assert_eq!(m.b, 3_650_000_000);

    // The drip is credited before the caller's own math, on both doors.
    let h_eve = anchor + DRIP_INTERVAL - 1;
    let h_dawn = anchor + DRIP_INTERVAL;
    let (pay_eve, _) = view_u128_pair(&mut v, h_eve, vec![OP_QUOTE_WITHDRAW, 50_000_000_000]);
    let (pay_dawn, _) = view_u128_pair(&mut v, h_dawn, vec![OP_QUOTE_WITHDRAW, 50_000_000_000]);
    assert_eq!(pay_eve, 45_000_000_000, "flat rate before the boundary");
    assert!(pay_dawn > pay_eve);
    let mint_eve = view_u128(&mut v, h_eve, vec![OP_QUOTE_DEPOSIT, 10_000_000_000]);
    let mint_dawn = view_u128(&mut v, h_dawn, vec![OP_QUOTE_DEPOSIT, 10_000_000_000]);
    assert_eq!(mint_eve, 10_000_000_000, "1:1 mint before the boundary");
    assert!(mint_dawn < mint_eve);

    // One drip releases one part in 365, up to one unit of dust.
    let h_drip1 = anchor + DRIP_INTERVAL;
    let d3 = deposit(&mut v, h_drip1, 10_000_000_000);
    let d3_minted = m.deposit(h_drip1, 10_000_000_000);
    let h2 = h_drip1 + 1;
    assert_state("after 1 epoch", &mut v, h2, &m);
    assert!(m.b == 3_640_000_000 || m.b == 3_640_000_001);
    assert_eq!(
        view_u128(&mut v, h2, vec![OP_GET_POT_ANCHOR]),
        (anchor + DRIP_INTERVAL) as u128
    );
    assert!(d3_minted < 10_000_000_000, "rate must exceed 1 after the drip");
    assert_eq!(d3, d3_minted);

    // 365 drips leave about 1/e of the pot.
    let pot_before_year = m.b;
    let year_remains = pot_after_release(pot_before_year, 365, YEAR_DAYS);
    assert!(
        year_remains * 100 > pot_before_year * 36 && year_remains * 100 < pot_before_year * 37
    );
    let h_year = anchor + DRIP_INTERVAL + DRIP_INTERVAL * 365;
    let out = withdraw(&mut v, h_year, 5_000_000_000);
    let (payout, tithe) = m.withdraw(h_year, 5_000_000_000);
    let h3 = h_year + 1;
    assert_eq!(out, payout);
    assert!(tithe > 0);
    assert_state("after a year", &mut v, h3, &m);

    // The last one pays the flat tithe like everyone, and the pot survives.
    let last_shares = m.s - DEAD_SHARES;
    assert_eq!(last_shares, d1_minted + d3_minted - 5_000_000_000);
    let pot_before_exodus = m.b;
    let out = withdraw(&mut v, h3, last_shares);
    let (payout, tithe) = m.withdraw(h3, last_shares);
    let h4 = h3 + 1;
    assert!(tithe > 0);
    assert_eq!(out, payout);
    assert_state("exodus", &mut v, h4, &m);
    assert_eq!(m.s, DEAD_SHARES);
    let dowry = m.b;
    assert_eq!(dowry, pot_before_exodus + tithe);
    assert_eq!(view_u128(&mut v, h4, vec![OP_GET_POT]), dowry);

    // Ten drips pass with no one standing: consumed, and not a unit released.
    let exodus_anchor = m.h0;
    let h_revival = exodus_anchor + DRIP_INTERVAL * 10;
    let out = deposit(&mut v, h_revival, 10_000_000);
    let minted = m.deposit(h_revival, 10_000_000);
    let h5 = h_revival + 1;
    assert!(minted > 0);
    assert_eq!(out, minted);
    assert_state("revival", &mut v, h5, &m);
    assert_eq!(m.b, dowry, "not a unit may drip while no one stands");
    assert_eq!(
        view_u128(&mut v, h5, vec![OP_GET_POT_ANCHOR]),
        (exodus_anchor + DRIP_INTERVAL * 10) as u128
    );

    // Drips resume for the new generation.
    let h_resume = exodus_anchor + DRIP_INTERVAL * 11;
    deposit(&mut v, h_resume, 10_000_000);
    m.deposit(h_resume, 10_000_000);
    let h6 = h_resume + 1;
    assert_state("resume", &mut v, h6, &m);
    assert!(m.b < dowry);
}

#[test]
fn permafrost_donate_and_eternity() {
    let mut h: u64 = 892_002;
    let anchor = h - 1;
    let mut v = setup_vault(anchor);
    let mut m = Mirror::new(anchor);
    h += 1;

    // A boost before genesis is refused and touches nothing.
    let refused = call(&mut v, h, vec![OP_DONATE_BOOST], underlying(1_000_000_000));
    h += 1;
    assert_eq!(refused.err(), Some(VaultError::NoOneStanding));
    assert_eq!(view_state(&mut v, h), (0, 0, 0));

    // A donation into the pot before genesis is accepted and waits frozen.
    let response =
        call(&mut v, h, vec![OP_DONATE_POT], underlying(36_500_000_000)).unwrap();
    assert_eq!(word(&response.data, 0), 36_500_000_000);
    assert_eq!(response.alkanes, vec![]);
    m.donate_pot(h, 36_500_000_000);
    h += 1;
    assert_state("pre-genesis tribute", &mut v, h, &m);
    assert_eq!((m.l, m.b, m.s), (36_500_000_000, 36_500_000_000, 0));

    // Genesis ten empty drips later: the dowry waited whole.
    let h_gen = anchor + DRIP_INTERVAL * 10;
    deposit(&mut v, h_gen, 100_000_000_000);
    m.deposit(h_gen, 100_000_000_000);
    let h1 = h_gen + 1;
    assert_state("genesis over dowry", &mut v, h1, &m);
    assert_eq!(m.b, 36_500_000_000);
    assert_eq!(
        view_u128(&mut v, h1, vec![OP_QUOTE_DEPOSIT, 10_000_000_000]),
        10_000_000_000
    );

    // A live donation into the pot does not move the rate.
    let (active_before, s_before) = (m.active(), m.s);
    call(&mut v, h1, vec![OP_DONATE_POT], underlying(3_650_000_000)).unwrap();
    m.donate_pot(h1, 3_650_000_000);
    let h2 = h1 + 1;
    assert_state("live tribute", &mut v, h2, &m);
    assert_eq!((m.l, m.b, m.s), (140_150_000_000, 40_150_000_000, 100_000_000_000));
    assert_eq!(m.active() * s_before, active_before * m.s);

    // A boost lifts the rate at once.
    let (active_before, s_before) = (m.active(), m.s);
    call(&mut v, h2, vec![OP_DONATE_BOOST], underlying(1_000_000_000)).unwrap();
    m.donate_boost(h2, 1_000_000_000);
    let h2b = h2 + 1;
    assert_state("boost", &mut v, h2b, &m);
    assert_eq!((m.l, m.b, m.s), (141_150_000_000, 40_150_000_000, 100_000_000_000));
    assert!(m.active() * s_before > active_before * m.s);
    assert_eq!(
        view_u128(&mut v, h2b, vec![OP_QUOTE_DEPOSIT, 10_100_000_000]),
        10_000_000_000
    );

    // One drip: the tribute starts dripping.
    let h_drip = anchor + DRIP_INTERVAL * 11;
    let out = deposit(&mut v, h_drip, 10_000_000_000);
    let minted = m.deposit(h_drip, 10_000_000_000);
    let h3 = h_drip + 1;
    assert_state("tribute drips", &mut v, h3, &m);
    assert!(m.b == 40_040_000_000 || m.b == 40_040_000_001);
    assert!(minted < 10_000_000_000);
    assert_eq!(out, minted);

    // Ten quiet years, then one deposit.
    let h_decade = anchor + DRIP_INTERVAL * 11 + DRIP_INTERVAL * 3650;
    deposit(&mut v, h_decade, 1_000_000_000);
    m.deposit(h_decade, 1_000_000_000);
    let h4 = h_decade + 1;
    assert_state("ten years", &mut v, h4, &m);
    assert!((1_785_000..=1_800_000).contains(&m.b), "{}", m.b);
    assert_eq!(
        view_u128(&mut v, h4, vec![OP_GET_POT_ANCHOR]),
        (anchor + DRIP_INTERVAL * 11 + DRIP_INTERVAL * 3650) as u128
    );

    // The power itself, across the whole range of drips.
    let b0: u128 = 1_000_000_000_000;
    let samples = [0u64, 1, 10, 365, 3650, 1_000_000, u64::MAX];
    let mut prev = b0;
    for e in samples {
        let cur = pot_after_release(b0, e, YEAR_DAYS);
        assert!(cur <= prev, "e = {}", e);
        prev = cur;
    }
    let ten_years = pot_after_release(b0, 3650, YEAR_DAYS);
    assert!((44_700_000..=44_900_000).contains(&ten_years), "{}", ten_years);
    assert_eq!(pot_after_release(b0, 1_000_000, YEAR_DAYS), 1);
    assert_eq!(pot_after_release(b0, u64::MAX, YEAR_DAYS), 1);
    assert_eq!(pot_after_release(b0, 1, 1), 0);
    assert_eq!(pot_after_release(b0, 1, 2), b0 / 2);
    assert_eq!(pot_after_release(1_001, 1, 2), 501);
}

#[test]
fn withdraw_after_any_silence() {
    let h: u64 = 893_003;
    let anchor = h - 2;
    for late in [
        h + 3,
        anchor + DRIP_INTERVAL,
        anchor + DRIP_INTERVAL * 3650,
        anchor + DRIP_INTERVAL * 365_000,
        u64::MAX,
    ] {
        let mut v = setup_vault(anchor);
        let mut m = Mirror::new(anchor);
        deposit(&mut v, h, 100_000_000_000);
        m.deposit(h, 100_000_000_000);
        deposit(&mut v, h + 1, 36_500_000_000);
        m.deposit(h + 1, 36_500_000_000);
        withdraw(&mut v, h + 2, 36_500_000_000);
        m.withdraw(h + 2, 36_500_000_000);
        let out = withdraw(&mut v, late, 1_000_000_000);
        let (payout, _) = m.withdraw(late, 1_000_000_000);
        assert_eq!(out, payout);
        assert_state("late exit", &mut v, late, &m);
    }
}
